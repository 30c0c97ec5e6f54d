//! Tests for the poll's state machine.

use base64ct::{Base64UrlUnpadded, Encoding};
use elastic_elgamal::group::Ristretto;
use elasticpoll::group::{Keypair, PublicKey};
use elasticpoll::poll::{
    EncryptedVoteChoice, ImportError, Participant, ParticipantApplication, ExportedPoll, PollId,
    PollSpec, PollStage, PollState, PollType, SecretManager, TallierShare, TallierShareError,
    TallyResult, Vote, VoteChoice, VoteError,
};
use elasticpoll::proofs::{ChoiceVerificationError, VerificationError};
use sha2::{Digest, Sha256};

const NOW: u64 = 1_700_000_000_000;

fn poll_spec(poll_type: PollType, options: &[&str]) -> PollSpec {
    PollSpec {
        title: "Sample poll".to_owned(),
        description: "".to_owned(),
        poll_type,
        nonce: 0,
        options: options.iter().map(|&option| option.to_owned()).collect(),
    }
}

fn poll_with_participants(spec: PollSpec, count: usize) -> (PollId, PollState, Vec<Keypair>) {
    let poll_id = PollId::for_spec(&spec);
    let mut poll = PollState::new(spec, NOW);
    let keys: Vec<_> = (0..count).map(|_| Keypair::generate()).collect();
    for our_keys in &keys {
        let app = ParticipantApplication::new(our_keys, &poll_id).unwrap();
        poll.insert_participant(app, NOW);
    }
    (poll_id, poll, keys)
}

/// Hands the poll over and takes it in again, which must give the same poll.
fn reimport(poll: PollState, poll_id: &PollId) -> PollState {
    let stage = poll.stage();
    let participants: Vec<Participant> = poll.participants().clone();
    let (imported_id, imported) = PollState::import(poll.export()).unwrap();
    assert_eq!(imported_id, *poll_id);
    assert_eq!(imported.stage(), stage);
    assert_eq!(imported.participants(), &participants);
    imported
}

fn run_single_choice_poll(options: &[&str], votes: &[usize]) -> Vec<u64> {
    let spec = poll_spec(PollType::SingleChoice, options);
    let (poll_id, mut poll, keys) = poll_with_participants(spec, votes.len());
    poll = reimport(poll, &poll_id);
    poll.finalize_participants();
    poll = reimport(poll, &poll_id);
    for (our_keys, &choice) in keys.iter().zip(votes) {
        let vote =
            Vote::new(our_keys, &poll_id, &poll, &VoteChoice::SingleChoice(choice)).unwrap();
        poll.insert_vote(&poll_id, vote, NOW).unwrap();
    }
    poll = reimport(poll, &poll_id);
    poll.finalize_votes();
    poll = reimport(poll, &poll_id);
    assert_eq!(poll.results(), None);
    for our_keys in &keys {
        assert_eq!(poll.results(), None);
        let share = TallierShare::new(our_keys, &poll_id, &poll).unwrap();
        poll.insert_tallier_share(&poll_id, share, NOW).unwrap();
        poll = reimport(poll, &poll_id);
    }
    assert_eq!(poll.stage(), PollStage::Finished);
    poll.results().unwrap().clone()
}

#[test]
fn tally_counts_the_votes_for_each_option() {
    assert_eq!(run_single_choice_poll(&["A", "B"], &[0, 1, 1]), [1, 2]);
}

#[test]
fn tally_of_a_unanimous_vote() {
    assert_eq!(run_single_choice_poll(&["A", "B", "C"], &[2, 2, 2, 2]), [0, 0, 4]);
}

#[test]
fn poll_with_one_participant_runs_through_all_stages() {
    let spec = poll_spec(PollType::SingleChoice, &["A", "B"]);
    let poll_id = PollId::for_spec(&spec);
    let mut poll = PollState::new(spec, NOW);
    assert_eq!(poll.created_at(), NOW);
    assert_eq!(poll.stage(), PollStage::Participants { participants: 0 });
    let keys = Keypair::generate();

    let app = ParticipantApplication::new(&keys, &poll_id).unwrap();
    poll.insert_participant(app, NOW + 1);
    assert_eq!(poll.stage(), PollStage::Participants { participants: 1 });
    assert_eq!(poll.participants()[0].created_at, NOW + 1);
    assert!(!poll.contains_votes());

    poll.finalize_participants();
    assert_eq!(poll.stage(), PollStage::Voting { votes: 0, participants: 1 });

    let vote = Vote::new(&keys, &poll_id, &poll, &VoteChoice::SingleChoice(1)).unwrap();
    poll.insert_vote(&poll_id, vote, NOW + 2).unwrap();
    assert_eq!(poll.stage(), PollStage::Voting { votes: 1, participants: 1 });
    assert!(poll.contains_votes());
    assert_eq!(poll.participants()[0].vote.as_ref().unwrap().submitted_at, NOW + 2);

    poll.finalize_votes();
    assert_eq!(poll.stage(), PollStage::Tallying { shares: 0, participants: 1 });

    let share = TallierShare::new(&keys, &poll_id, &poll).unwrap();
    poll.insert_tallier_share(&poll_id, share, NOW + 3).unwrap();
    assert_eq!(poll.stage(), PollStage::Finished);
    assert_eq!(poll.participants()[0].tallier_share.as_ref().unwrap().submitted_at, NOW + 3);
    assert_eq!(poll.results(), Some(&vec![0, 1]));
}

#[test]
fn multi_choice_poll_counts_each_option() {
    let spec = poll_spec(PollType::MultiChoice, &["A", "B", "C"]);
    let (poll_id, mut poll, keys) = poll_with_participants(spec, 3);
    poll.finalize_participants();
    let choices = [
        vec![true, false, true],
        vec![false, false, false],
        vec![true, true, true],
    ];
    for (our_keys, choice) in keys.iter().zip(choices) {
        let choice = VoteChoice::MultiChoice(choice);
        let vote = Vote::new(our_keys, &poll_id, &poll, &choice).unwrap();
        assert_eq!(vote.choice.poll_type(), PollType::MultiChoice);
        assert_eq!(vote.choice.choices_unchecked().len(), 3);
        poll.insert_vote(&poll_id, vote, NOW).unwrap();
    }
    poll.finalize_votes();
    for our_keys in &keys {
        let share = TallierShare::new(our_keys, &poll_id, &poll).unwrap();
        assert_eq!(share.shares.len(), 3);
        poll.insert_tallier_share(&poll_id, share, NOW).unwrap();
    }
    assert_eq!(poll.results(), Some(&vec![2, 1, 2]));
}

#[test]
fn poll_without_votes_has_empty_tally() {
    let spec = poll_spec(PollType::SingleChoice, &["A", "B"]);
    let (poll_id, mut poll, keys) = poll_with_participants(spec, 2);
    poll.finalize_participants();
    poll.finalize_votes();
    for our_keys in &keys {
        let share = TallierShare::new(our_keys, &poll_id, &poll).unwrap();
        poll.insert_tallier_share(&poll_id, share, NOW).unwrap();
    }
    assert_eq!(poll.results(), Some(&vec![0, 0]));
}

#[test]
fn second_vote_replaces_the_first() {
    let spec = poll_spec(PollType::SingleChoice, &["A", "B"]);
    let (poll_id, mut poll, keys) = poll_with_participants(spec, 2);
    poll.finalize_participants();

    let vote = Vote::new(&keys[0], &poll_id, &poll, &VoteChoice::SingleChoice(0)).unwrap();
    poll.insert_vote(&poll_id, vote, NOW).unwrap();
    assert_eq!(poll.stage(), PollStage::Voting { votes: 1, participants: 2 });
    let first_hash = poll.participants()[0].vote.as_ref().unwrap().hash.clone();

    let vote = Vote::new(&keys[0], &poll_id, &poll, &VoteChoice::SingleChoice(1)).unwrap();
    poll.insert_vote(&poll_id, vote.clone(), NOW + 5).unwrap();
    assert_eq!(poll.stage(), PollStage::Voting { votes: 1, participants: 2 });
    let submitted = poll.participants()[0].vote.as_ref().unwrap();
    assert_eq!(submitted.inner, vote);
    assert_eq!(submitted.submitted_at, NOW + 5);
    assert_ne!(submitted.hash, first_hash);
    assert!(submitted.has_own_hash());
    assert!(poll.participants()[1].vote.is_none());

    let vote = Vote::new(&keys[1], &poll_id, &poll, &VoteChoice::SingleChoice(1)).unwrap();
    poll.insert_unchecked_vote(vote, NOW);
    assert_eq!(poll.stage(), PollStage::Voting { votes: 2, participants: 2 });

    poll.finalize_votes();
    for our_keys in &keys {
        let share = TallierShare::new(our_keys, &poll_id, &poll).unwrap();
        poll.insert_tallier_share(&poll_id, share, NOW).unwrap();
    }
    assert_eq!(poll.results(), Some(&vec![0, 2]));
}

#[test]
fn vote_hash_is_the_hash_of_the_choice() {
    let spec = poll_spec(PollType::SingleChoice, &["A", "B"]);
    let (poll_id, mut poll, keys) = poll_with_participants(spec, 1);
    poll.finalize_participants();
    let vote = Vote::new(&keys[0], &poll_id, &poll, &VoteChoice::SingleChoice(0)).unwrap();
    let json = vote.choice.to_json();
    assert!(json.starts_with("{\"type\":\"single_choice\",\"choices\":[{\"random_element\":\""));
    poll.insert_unchecked_vote(vote, NOW);
    let submitted = poll.participants()[0].vote.as_ref().unwrap();
    assert_eq!(submitted.hash, Base64UrlUnpadded::encode_string(&Sha256::digest(&json)));
    assert_eq!(submitted.choices().len(), 2);
}

#[test]
fn choice_is_written_as_the_backend_writes_it() {
    let spec = poll_spec(PollType::SingleChoice, &["A", "B", "C"]);
    let (poll_id, mut poll, keys) = poll_with_participants(spec, 1);
    poll.finalize_participants();
    let vote = Vote::new(&keys[0], &poll_id, &poll, &VoteChoice::SingleChoice(2)).unwrap();
    let choice = match &vote.choice {
        EncryptedVoteChoice::SingleChoice(choice) => choice,
        EncryptedVoteChoice::MultiChoice(_) => unreachable!(),
    };
    assert_eq!(choice.len(), 3);
    let json = choice.to_json();
    let decoded: elastic_elgamal::app::EncryptedChoice<Ristretto, elastic_elgamal::app::SingleChoice> =
        serde_json::from_str(&json).unwrap();
    assert_eq!(serde_json::to_string(&decoded).unwrap(), json);
    // With the kind of choice as the first field, the text is read as well.
    let tagged: elastic_elgamal::app::EncryptedChoice<Ristretto, elastic_elgamal::app::SingleChoice> =
        serde_json::from_str(&vote.choice.to_json()).unwrap();
    assert_eq!(serde_json::to_string(&tagged).unwrap(), json);
    assert_eq!(
        vote.choice.to_json(),
        format!("{{\"type\":\"single_choice\",{}", &json[1..])
    );

    poll = PollState::new(poll_spec(PollType::MultiChoice, &["A", "B"]), NOW);
    poll.insert_participant(ParticipantApplication::new(&keys[0], &poll_id).unwrap(), NOW);
    poll.finalize_participants();
    let choice = VoteChoice::MultiChoice(vec![true, true]);
    let vote = Vote::new(&keys[0], &poll_id, &poll, &choice).unwrap();
    let json = vote.choice.to_json();
    assert!(json.starts_with("{\"type\":\"multi_choice\",\"choices\":["));
    assert!(json.ends_with(",\"sum_proof\":null}"));
    let decoded: elastic_elgamal::app::EncryptedChoice<Ristretto, elastic_elgamal::app::MultiChoice> =
        serde_json::from_str(&json).unwrap();
    assert_eq!(
        format!("{{\"type\":\"multi_choice\",{}", &serde_json::to_string(&decoded).unwrap()[1..]),
        json
    );
}

#[test]
fn shared_key_is_the_sum_of_the_participants_keys() {
    let spec = poll_spec(PollType::SingleChoice, &["A", "B"]);
    let (_, mut poll, keys) = poll_with_participants(spec, 3);
    let expected = keys
        .iter()
        .map(|keys| {
            elastic_elgamal::PublicKey::<Ristretto>::from_bytes(keys.public().as_bytes()).unwrap()
        })
        .reduce(|sum, key| sum + key)
        .unwrap();
    let shared_key = poll.shared_key().unwrap();
    assert_eq!(shared_key.as_bytes().as_slice(), expected.as_bytes());
    assert_ne!(shared_key, *keys[0].public());
    poll.finalize_participants();
    assert_eq!(poll.finalized_shared_key(), &shared_key);
    // Closing the set of participants again changes nothing.
    poll.finalize_participants();
    assert_eq!(poll.finalized_shared_key(), &shared_key);
    assert_eq!(poll.stage(), PollStage::Voting { votes: 0, participants: 3 });
}

#[test]
fn poll_without_participants_stays_open() {
    let mut poll = PollState::new(poll_spec(PollType::SingleChoice, &["A"]), NOW);
    assert_eq!(poll.shared_key(), None);
    poll.finalize_participants();
    assert_eq!(poll.stage(), PollStage::Participants { participants: 0 });
}

#[test]
fn key_that_is_no_group_element_cannot_be_summed() {
    let spec = poll_spec(PollType::SingleChoice, &["A", "B"]);
    let (poll_id, mut poll, keys) = poll_with_participants(spec, 1);
    let mut app = ParticipantApplication::new(&keys[0], &poll_id).unwrap();
    // The group's identity is not a public key.
    app.public_key = PublicKey::from_bytes([0; 32]);
    poll.insert_participant(app, NOW);
    assert_eq!(poll.shared_key(), None);
    poll.finalize_participants();
    assert_eq!(poll.stage(), PollStage::Participants { participants: 2 });
}

#[test]
fn application_with_known_key_replaces_the_participant() {
    let spec = poll_spec(PollType::SingleChoice, &["A", "B"]);
    let (poll_id, mut poll, keys) = poll_with_participants(spec, 3);
    let app = ParticipantApplication::new(&keys[1], &poll_id).unwrap();
    poll.insert_participant(app.clone(), NOW + 7);
    assert_eq!(poll.stage(), PollStage::Participants { participants: 3 });
    assert_eq!(poll.participants()[1], Participant::new(app, NOW + 7));
    assert_eq!(poll.participants()[0].created_at, NOW);
    assert_eq!(poll.participants()[2].created_at, NOW);
    assert_eq!(poll.participants()[1].public_key(), keys[1].public());
    assert_eq!(poll.participants()[1].public_key_bytes(), keys[1].public().bytes);
    assert!(poll.has_participant(keys[2].public()));

    poll.remove_participant(0);
    assert_eq!(poll.stage(), PollStage::Participants { participants: 2 });
    assert!(!poll.has_participant(keys[0].public()));
    assert_eq!(poll.participants()[0].public_key(), keys[1].public());
    assert_eq!(poll.participants()[1].public_key(), keys[2].public());
}

#[test]
fn vote_verdict_follows_the_order_of_checks() {
    let signature_err = VerificationError { message: "bad signature".to_owned() };
    let choice_err = ChoiceVerificationError { message: "bad choice".to_owned() };
    let single = PollType::SingleChoice;
    let multi = PollType::MultiChoice;

    assert_eq!(Vote::verdict(true, Ok(()), single, single, Ok(())), Ok(()));
    assert_eq!(
        Vote::verdict(false, Err(signature_err.clone()), single, multi, Err(choice_err.clone())),
        Err(VoteError::IneligibleVoter)
    );
    assert_eq!(
        Vote::verdict(true, Err(signature_err.clone()), single, multi, Err(choice_err.clone())),
        Err(VoteError::Signature(signature_err.clone()))
    );
    assert_eq!(
        Vote::verdict(true, Ok(()), single, multi, Err(choice_err.clone())),
        Err(VoteError::ChoiceType { expected: single, actual: multi })
    );
    assert_eq!(
        Vote::verdict(true, Ok(()), multi, multi, Err(choice_err.clone())),
        Err(VoteError::Choice(choice_err.clone()))
    );
    assert_eq!(
        VoteError::Signature(signature_err).to_string(),
        "cannot verify voter's signature: bad signature"
    );
    assert_eq!(VoteError::Choice(choice_err).to_string(), "cannot verify choice: bad choice");
    assert_eq!(VoteError::ensure_choice_type(multi, multi), Ok(()));
}

#[test]
fn tallier_share_verdict_follows_the_order_of_checks() {
    let err = |message: &str| VerificationError { message: message.to_owned() };
    let outcomes = vec![Ok(()), Err(err("second")), Ok(()), Err(err("fourth"))];

    assert_eq!(
        TallierShare::verdict(4, 3, false, None),
        Err(TallierShareError::OptionsCount { expected: 4, actual: 3 })
    );
    assert_eq!(
        TallierShare::verdict(4, 4, false, Some(outcomes.clone())),
        Err(TallierShareError::IneligibleTallier)
    );
    assert_eq!(
        TallierShare::verdict(4, 4, true, None),
        Err(TallierShareError::Undecryptable)
    );
    assert_eq!(
        TallierShare::verdict(4, 4, true, Some(outcomes)),
        Err(TallierShareError::InvalidShare { index: 1, err: err("second") })
    );
    assert_eq!(TallierShare::verdict(2, 2, true, Some(vec![Ok(()), Ok(())])), Ok(()));
    assert_eq!(TallierShare::verdict(0, 0, true, Some(vec![])), Ok(()));

    assert_eq!(
        TallierShareError::OptionsCount { expected: 2, actual: 10 }.to_string(),
        "unexpected number of options: expected 2, got 10"
    );
    assert_eq!(
        TallierShareError::InvalidShare { index: 9, err: err("no") }.to_string(),
        "cannot verify share for option #10: no"
    );
    assert_eq!(
        TallierShareError::InvalidShare { index: usize::MAX, err: err("no") }.to_string(),
        format!("cannot verify share for option #{}: no", usize::MAX as u128 + 1)
    );
    assert_eq!(TallierShareError::Undecryptable.to_string(), "cannot decrypt");
    assert_eq!(TallierShareError::ensure_options_count(3, 3), Ok(()));
}

#[test]
fn shares_are_checked_up_to_the_first_failure() {
    let spec = poll_spec(PollType::SingleChoice, &["A", "B", "C"]);
    let (poll_id, mut poll, keys) = poll_with_participants(spec, 1);
    poll.finalize_participants();
    let vote = Vote::new(&keys[0], &poll_id, &poll, &VoteChoice::SingleChoice(1)).unwrap();
    poll.insert_vote(&poll_id, vote, NOW).unwrap();
    poll.finalize_votes();
    let ciphertexts = poll.cumulative_choices().unwrap();
    let mut transcript = elasticpoll::proofs::Transcript::new("tallier_share");
    transcript.append_message("poll_id", &poll_id.0);
    transcript.append_message("shared_key", poll.finalized_shared_key().as_bytes());
    transcript.append_u64("n", 1);
    assert_eq!(transcript.messages[2].data, [1, 0, 0, 0, 0, 0, 0, 0]);
    assert_eq!(transcript.messages[2].label, "n");

    let share = TallierShare::new(&keys[0], &poll_id, &poll).unwrap();
    assert_eq!(share.check_shares(&ciphertexts, &transcript), [Ok(()), Ok(()), Ok(())]);

    let mut mangled_share = share.clone();
    mangled_share.shares.swap(1, 2);
    let outcomes = mangled_share.check_shares(&ciphertexts, &transcript);
    assert_eq!(outcomes.len(), 2);
    assert_eq!(outcomes[0], Ok(()));
    assert!(outcomes[1].is_err());
    assert!(matches!(
        mangled_share.verify(&poll_id, &poll),
        Err(TallierShareError::InvalidShare { index: 1, .. })
    ));

    // With another number of participants the proofs are bound to another context.
    let mut other_transcript = elasticpoll::proofs::Transcript::new("tallier_share");
    other_transcript.append_message("poll_id", &poll_id.0);
    other_transcript.append_message("shared_key", poll.finalized_shared_key().as_bytes());
    other_transcript.append_u64("n", 2);
    let outcomes = share.check_shares(&ciphertexts, &other_transcript);
    assert_eq!(outcomes.len(), 1);
    assert!(outcomes[0].is_err());
}

#[test]
fn tallier_share_with_too_few_shares() {
    let spec = poll_spec(PollType::SingleChoice, &["A", "B"]);
    let (poll_id, mut poll, keys) = poll_with_participants(spec, 1);
    poll.finalize_participants();
    poll.finalize_votes();
    let mut share = TallierShare::new(&keys[0], &poll_id, &poll).unwrap();
    share.shares.pop();
    assert_eq!(
        poll.insert_tallier_share(&poll_id, share.clone(), NOW),
        Err(TallierShareError::OptionsCount { expected: 2, actual: 1 })
    );
    // The number of shares is checked before the tallier is.
    share.public_key = *Keypair::generate().public();
    assert_eq!(
        share.verify(&poll_id, &poll),
        Err(TallierShareError::OptionsCount { expected: 2, actual: 1 })
    );
    assert_eq!(poll.stage(), PollStage::Tallying { shares: 0, participants: 1 });
}

#[test]
fn share_for_another_poll_is_invalid() {
    let spec = poll_spec(PollType::SingleChoice, &["A", "B"]);
    let (poll_id, mut poll, keys) = poll_with_participants(spec, 1);
    poll.finalize_participants();
    poll.finalize_votes();
    let other_id = PollId::for_spec(&poll_spec(PollType::SingleChoice, &["A", "C"]));
    let share = TallierShare::new(&keys[0], &other_id, &poll).unwrap();
    let err = poll.insert_tallier_share(&poll_id, share.clone(), NOW).unwrap_err();
    assert!(matches!(err, TallierShareError::InvalidShare { index: 0, .. }));
    assert_eq!(share.verify(&other_id, &poll), Ok(()));
}

#[test]
fn votes_for_another_key_cannot_be_decrypted() {
    let spec = poll_spec(PollType::SingleChoice, &["A", "B"]);
    let (poll_id, mut poll, keys) = poll_with_participants(spec.clone(), 1);
    poll.finalize_participants();
    // A vote that is encrypted for the key of another poll.
    let (_, mut other_poll, _) = poll_with_participants(spec, 2);
    other_poll.finalize_participants();
    let vote = Vote::new(&keys[0], &poll_id, &other_poll, &VoteChoice::SingleChoice(1)).unwrap();
    assert!(matches!(vote.verify(&poll_id, &poll), Err(VoteError::Choice(_))));
    poll.insert_unchecked_vote(vote, NOW);
    poll.finalize_votes();

    let share = TallierShare::new(&keys[0], &poll_id, &poll).unwrap();
    assert_eq!(share.verify(&poll_id, &poll), Ok(()));
    assert_eq!(
        poll.insert_tallier_share(&poll_id, share, NOW),
        Err(TallierShareError::Undecryptable)
    );
    assert_eq!(poll.stage(), PollStage::Tallying { shares: 0, participants: 1 });
    assert_eq!(poll.results(), None);
}

#[test]
fn keys_for_a_poll_can_vote_in_it() {
    let spec = poll_spec(PollType::SingleChoice, &["A", "B"]);
    let poll_id = PollId::for_spec(&spec);
    let mut secrets = SecretManager::new();
    secrets.unlock_with_secret([7; 32]);
    let keys = secrets.keys_for_poll(&poll_id).unwrap();
    assert_eq!(Keypair::derive(&[7; 32], &poll_id.0).public(), keys.public());

    let mut poll = PollState::new(spec, NOW);
    let app = ParticipantApplication::new(&keys, &poll_id).unwrap();
    assert_eq!(app.public_key, secrets.public_key_for_poll(&poll_id).unwrap());
    assert_eq!(app.validate(&poll_id), Ok(()));
    poll.insert_participant(app, NOW);
    poll.finalize_participants();
    let vote = Vote::new(&keys, &poll_id, &poll, &VoteChoice::SingleChoice(0)).unwrap();
    assert_eq!(vote.verify_signature(&poll_id), Ok(()));
    assert_eq!(poll.insert_vote(&poll_id, vote, NOW), Ok(()));
}

fn finished_poll() -> (PollId, PollState, Vec<Keypair>) {
    let spec = poll_spec(PollType::SingleChoice, &["A", "B"]);
    let (poll_id, mut poll, keys) = poll_with_participants(spec, 2);
    poll.finalize_participants();
    for (i, our_keys) in keys.iter().enumerate() {
        let vote = Vote::new(our_keys, &poll_id, &poll, &VoteChoice::SingleChoice(i)).unwrap();
        poll.insert_vote(&poll_id, vote, NOW).unwrap();
    }
    poll.finalize_votes();
    for our_keys in &keys {
        let share = TallierShare::new(our_keys, &poll_id, &poll).unwrap();
        poll.insert_tallier_share(&poll_id, share, NOW).unwrap();
    }
    (poll_id, poll, keys)
}

fn import_error(exported: ExportedPoll) -> ImportError {
    PollState::import(exported).unwrap_err()
}

#[test]
fn import_takes_a_finished_poll_in() {
    let (poll_id, poll, _) = finished_poll();
    let exported = poll.export();
    assert_eq!(exported.tally_result, Some(TallyResult::Finished(vec![1, 1])));
    let (imported_id, imported) = PollState::import(exported.clone()).unwrap();
    assert_eq!(imported_id, poll_id);
    assert_eq!(imported.stage(), PollStage::Finished);
    assert_eq!(imported.results(), Some(&vec![1, 1]));
    assert_eq!(imported.export(), exported);
}

#[test]
fn import_refuses_parts_that_contradict_each_other() {
    let (_, poll, _) = finished_poll();
    let exported = poll.export();

    let mut mangled = exported.clone();
    mangled.tally_result = Some(TallyResult::Finished(vec![2, 0]));
    assert_eq!(import_error(mangled), ImportError::Inconsistent);

    let mut mangled = exported.clone();
    mangled.tally_result = Some(TallyResult::InProgress);
    assert_eq!(import_error(mangled), ImportError::Inconsistent);

    let mut mangled = exported.clone();
    mangled.tally_result = None;
    assert_eq!(import_error(mangled), ImportError::Inconsistent);

    let mut mangled = exported.clone();
    mangled.shared_key = None;
    assert_eq!(import_error(mangled), ImportError::Inconsistent);

    let mut mangled = exported.clone();
    mangled.shared_key = Some(*mangled.participants[0].public_key());
    assert_eq!(import_error(mangled), ImportError::Inconsistent);

    let mut mangled = exported.clone();
    mangled.participants.swap(0, 1);
    mangled.participants[1].vote = mangled.participants[0].vote.clone();
    assert_eq!(import_error(mangled), ImportError::Inconsistent);

    let mut mangled = exported.clone();
    let duplicate = mangled.participants[0].clone();
    mangled.participants.push(duplicate);
    assert_eq!(import_error(mangled), ImportError::Inconsistent);

    let mut mangled = exported.clone();
    mangled.participants[1].vote.as_mut().unwrap().hash.push('A');
    assert_eq!(import_error(mangled), ImportError::Inconsistent);

    let mut mangled = exported.clone();
    mangled.participants[1].tallier_share = None;
    assert_eq!(import_error(mangled), ImportError::Inconsistent);

    let mut mangled = exported;
    mangled.spec.options.clear();
    assert_eq!(import_error(mangled), ImportError::Inconsistent);
}

#[test]
fn import_refuses_invalid_submissions() {
    let spec = poll_spec(PollType::SingleChoice, &["A", "B"]);
    let (poll_id, mut poll, keys) = poll_with_participants(spec, 2);
    let mut exported = poll.export();
    exported.spec.nonce = 1;
    // The applications are bound to the ID of the poll, which has changed.
    assert!(matches!(
        import_error(exported.clone()),
        ImportError::Application { index: 0, .. }
    ));
    exported.spec.nonce = 0;
    poll = PollState::import(exported).unwrap().1;

    poll.finalize_participants();
    let vote = Vote::new(&keys[0], &poll_id, &poll, &VoteChoice::SingleChoice(0)).unwrap();
    poll.insert_vote(&poll_id, vote, NOW).unwrap();
    let vote = Vote::new(&keys[1], &poll_id, &poll, &VoteChoice::SingleChoice(0)).unwrap();
    let mut mangled_vote = vote.clone();
    mangled_vote.signature = poll.participants()[0].vote.as_ref().unwrap().inner.signature.clone();
    poll.insert_unchecked_vote(mangled_vote, NOW);
    assert!(matches!(
        import_error(poll.clone().export()),
        ImportError::Vote { index: 1, err: VoteError::Signature(_) }
    ));
    poll.insert_unchecked_vote(vote, NOW);
    poll = PollState::import(poll.export()).unwrap().1;

    poll.finalize_votes();
    let share = TallierShare::new(&keys[1], &poll_id, &poll).unwrap();
    let mut mangled_share = share.clone();
    mangled_share.shares.swap(0, 1);
    poll.insert_unchecked_tallier_share(mangled_share, NOW);
    assert!(matches!(
        import_error(poll.clone().export()),
        ImportError::TallierShare { index: 1, err: TallierShareError::InvalidShare { index: 0, .. } }
    ));
    poll.insert_unchecked_tallier_share(share, NOW);
    assert_eq!(PollState::import(poll.export()).unwrap().0, poll_id);
}

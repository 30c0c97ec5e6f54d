//! Tests for what the pages of the application decide.

use elasticpoll::components::{
    App, AppMessage, Home, HomeAction, HomeMessage, Participants, ParticipantsAction,
    ParticipantsMessage, PendingRemovals, RemovalMessage, Route, Secrets, SecretsAction,
    SecretsMessage, Tallying, TallyingAction, TallyingMessage, ValidatedValue, Voting,
    VotingAction, VotingMessage,
};
use elasticpoll::group::Keypair;
use elasticpoll::poll::{
    ImportError, ParticipantApplication, PollId, PollSpec, PollStage, PollState, PollType,
    SecretManagerStatus, TallierShare, Vote, VoteChoice,
};

const NOW: u64 = 1_700_000_000_000;

fn poll_spec(poll_type: PollType) -> PollSpec {
    PollSpec {
        title: "Sample poll".to_owned(),
        description: "".to_owned(),
        poll_type,
        nonce: 0,
        options: vec!["A".to_owned(), "B".to_owned(), "C".to_owned()],
    }
}

fn new_poll(poll_type: PollType) -> (PollId, PollState) {
    let action = App::update(AppMessage::PollCreated(poll_spec(poll_type)), NOW);
    assert_eq!(action.route, Route::PollParticipants { id: action.id });
    assert!(action.replace);
    assert_eq!(action.id, PollId::for_spec(&poll_spec(poll_type)));
    assert_eq!(action.state.created_at(), NOW);
    (action.id, action.state)
}

/// A poll with the given participants that takes votes.
fn voting_poll(poll_type: PollType, keys: &[Keypair]) -> (PollId, PollState) {
    let (id, state) = new_poll(poll_type);
    let mut page = Participants::create(id, Some(state));
    for our_keys in keys {
        let action = page.update(ParticipantsMessage::UsAdded(our_keys.clone()), NOW);
        assert_eq!(action, ParticipantsAction::Store);
    }
    let state = match page.update(ParticipantsMessage::Done, NOW) {
        ParticipantsAction::Done(state) => state,
        other => panic!("unexpected action: {other:?}"),
    };
    let action = App::update(AppMessage::ParticipantsFinalized(id, state), NOW);
    assert_eq!(action.route, Route::Voting { id });
    assert!(!action.replace);
    (id, action.state)
}

#[test]
fn pending_removals_are_a_set() {
    let mut pending = PendingRemovals::new();
    assert!(!pending.contains(&[1; 32]));
    pending.insert([1; 32]);
    pending.insert([2; 32]);
    pending.insert([1; 32]);
    assert!(pending.contains(&[1; 32]) && pending.contains(&[2; 32]));
    assert!(!pending.contains(&[3; 32]));
    pending.remove(&[1; 32]);
    assert!(!pending.contains(&[1; 32]) && pending.contains(&[2; 32]));
    pending.remove(&[3; 32]);
    pending.remove(&[2; 32]);
    assert_eq!(pending, PendingRemovals::new());
}

#[test]
fn poll_is_worked_on_at_the_page_of_its_stage() {
    let id = PollId([7; 32]);
    assert_eq!(
        Route::for_poll(id, PollStage::Participants { participants: 2 }),
        Route::PollParticipants { id }
    );
    assert_eq!(
        Route::for_poll(id, PollStage::Voting { votes: 1, participants: 2 }),
        Route::Voting { id }
    );
    assert_eq!(
        Route::for_poll(id, PollStage::Tallying { shares: 0, participants: 2 }),
        Route::Tallying { id }
    );
    assert_eq!(Route::for_poll(id, PollStage::Finished), Route::Tallying { id });
}

#[test]
fn participants_page_admits_valid_applications() {
    let (id, state) = new_poll(PollType::SingleChoice);
    let mut page = Participants::create(id, Some(state));
    assert!(!page.is_readonly);
    assert_eq!(page.new_application, ValidatedValue::empty());

    let text = "{".to_owned();
    let message = ParticipantsMessage::ApplicationSet(text.clone(), Err("EOF".to_owned()));
    assert_eq!(page.update(message, NOW), ParticipantsAction::Render);
    assert_eq!(
        page.new_application,
        ValidatedValue {
            value: text,
            error_message: Some("Error parsing application: EOF".to_owned()),
        }
    );

    let keys = Keypair::generate();
    let other_id = PollId::for_spec(&poll_spec(PollType::MultiChoice));
    let app = ParticipantApplication::new(&keys, &other_id).unwrap();
    let message = ParticipantsMessage::ApplicationSet("{..}".to_owned(), Ok(app));
    assert_eq!(page.update(message, NOW), ParticipantsAction::Render);
    let error = page.new_application.error_message.as_deref().unwrap();
    assert!(error.starts_with("Error validating application: "), "{error}");
    assert_eq!(page.new_application.value, "{..}");
    assert!(page.poll_state.as_ref().unwrap().participants().is_empty());

    let app = page.create_our_participant(&keys).unwrap();
    let message = ParticipantsMessage::ApplicationSet("{..}".to_owned(), Ok(app.clone()));
    assert_eq!(page.update(message, NOW + 1), ParticipantsAction::Store);
    assert_eq!(page.new_application, ValidatedValue::empty());
    let state = page.poll_state.as_ref().unwrap();
    assert_eq!(state.participants().len(), 1);
    assert_eq!(state.participants()[0].application, app);
    assert_eq!(state.participants()[0].created_at, NOW + 1);
    assert!(Participants::we_are_participant(state, Some(*keys.public())));
    assert!(!Participants::we_are_participant(state, Some(*Keypair::generate().public())));
    assert!(!Participants::we_are_participant(state, None));

    assert_eq!(
        page.update(ParticipantsMessage::ExportRequested(0), NOW),
        ParticipantsAction::Export(0)
    );
    assert_eq!(page.update(ParticipantsMessage::SecretUpdated, NOW), ParticipantsAction::Render);
}

#[test]
fn participants_page_removes_participants_once_confirmed() {
    let (id, state) = new_poll(PollType::SingleChoice);
    let mut page = Participants::create(id, Some(state));
    let keys = [Keypair::generate(), Keypair::generate()];
    for our_keys in &keys {
        page.update(ParticipantsMessage::UsAdded(our_keys.clone()), NOW);
    }
    let key = *keys[0].public();

    let message = ParticipantsMessage::Removal(RemovalMessage::Requested(key));
    assert_eq!(page.update(message, NOW), ParticipantsAction::Render);
    assert!(page.pending_removals.contains(&key.bytes));
    let message = ParticipantsMessage::Removal(RemovalMessage::Cancelled(key));
    assert_eq!(page.update(message, NOW), ParticipantsAction::Render);
    assert!(!page.pending_removals.contains(&key.bytes));
    assert_eq!(page.poll_state.as_ref().unwrap().participants().len(), 2);

    page.update(ParticipantsMessage::Removal(RemovalMessage::Requested(key)), NOW);
    let message = ParticipantsMessage::Removal(RemovalMessage::Confirmed(key));
    assert_eq!(page.update(message, NOW), ParticipantsAction::Store);
    assert!(!page.pending_removals.contains(&key.bytes));
    let state = page.poll_state.as_ref().unwrap();
    assert_eq!(state.participants().len(), 1);
    assert!(!state.has_participant(&key) && state.has_participant(keys[1].public()));
    // There is nothing to store where the participant is gone already.
    let message = ParticipantsMessage::Removal(RemovalMessage::Confirmed(key));
    assert_eq!(page.update(message, NOW), ParticipantsAction::Render);
}

#[test]
fn pages_of_other_stages_are_read_only() {
    let keys = [Keypair::generate()];
    let (id, state) = voting_poll(PollType::SingleChoice, &keys);
    assert!(Participants::create(id, Some(state.clone())).is_readonly);
    assert!(Tallying::create(id, Some(state.clone())).is_readonly);
    assert!(!Voting::create(id, Some(state), None).is_readonly);
    assert!(Participants::create(id, None).is_readonly);
    assert!(Voting::create(id, None, Some(*keys[0].public())).is_readonly);
    assert!(Tallying::create(id, None).is_readonly);

    let (id, state) = new_poll(PollType::SingleChoice);
    assert!(Voting::create(id, Some(state.clone()), None).is_readonly);
    assert!(Tallying::create(id, Some(state)).is_readonly);
    let mut page = Participants::create(id, None);
    assert_eq!(
        page.update(ParticipantsMessage::ExportRequested(0), NOW),
        ParticipantsAction::Nothing
    );
}

#[test]
fn voting_page_takes_votes_in() {
    let keys = [Keypair::generate(), Keypair::generate()];
    let (id, state) = voting_poll(PollType::MultiChoice, &keys);
    let outsider = Keypair::generate();
    let page = Voting::create(id, Some(state.clone()), Some(*outsider.public()));
    assert_eq!(page.our_choice, None);
    let page = Voting::create(id, Some(state.clone()), None);
    assert_eq!(page.our_choice, None);
    assert_eq!(Voting::default_choice(None, Some(*keys[0].public())), None);

    let mut page = Voting::create(id, Some(state), Some(*keys[0].public()));
    assert_eq!(page.our_choice, Some(VoteChoice::MultiChoice(vec![false; 3])));
    assert_eq!(page.update(VotingMessage::OptionSelected(2, true), NOW), VotingAction::Render);
    assert_eq!(page.update(VotingMessage::OptionSelected(0, true), NOW), VotingAction::Render);
    assert_eq!(page.update(VotingMessage::OptionSelected(0, false), NOW), VotingAction::Render);
    assert_eq!(page.our_choice, Some(VoteChoice::MultiChoice(vec![false, false, true])));
    let message = VotingMessage::SecretUpdated(None);
    assert_eq!(page.update(message, NOW), VotingAction::Render);
    assert_eq!(page.our_choice, Some(VoteChoice::MultiChoice(vec![false, false, true])));

    assert_eq!(page.update(VotingMessage::ExportRequested(0), NOW), VotingAction::Nothing);
    assert_eq!(page.update(VotingMessage::OurVoteAdded(outsider), NOW), VotingAction::Render);
    let message = VotingMessage::OurVoteAdded(keys[0].clone());
    assert_eq!(page.update(message, NOW + 1), VotingAction::Store);
    assert!(page.has_vote(0) && !page.has_vote(1) && !page.has_vote(2));
    assert_eq!(page.update(VotingMessage::ExportRequested(0), NOW), VotingAction::Export(0));
    assert_eq!(page.update(VotingMessage::ExportRequested(1), NOW), VotingAction::Nothing);
    assert_eq!(page.update(VotingMessage::ExportRequested(5), NOW), VotingAction::Nothing);

    let message = VotingMessage::VoteSet("?".to_owned(), Err("expected value".to_owned()));
    assert_eq!(page.update(message, NOW), VotingAction::Render);
    assert_eq!(page.new_vote.error_message.as_deref(), Some("Error parsing vote: expected value"));

    let state = page.poll_state.as_ref().unwrap();
    let choice = VoteChoice::MultiChoice(vec![true, true, false]);
    let vote = Vote::new(&keys[1], &id, state, &choice).unwrap();
    let mut mangled_vote = vote.clone();
    mangled_vote.signature = state.participants()[0].vote.as_ref().unwrap().inner.signature.clone();
    let message = VotingMessage::VoteSet("{..}".to_owned(), Ok(mangled_vote));
    assert_eq!(page.update(message, NOW), VotingAction::Render);
    let error = page.new_vote.error_message.as_deref().unwrap();
    assert!(error.starts_with("Error verifying vote: cannot verify voter's signature: "), "{error}");
    assert_eq!(page.new_vote.value, "{..}");
    assert!(!page.has_vote(1));

    let message = VotingMessage::VoteSet("{..}".to_owned(), Ok(vote.clone()));
    assert_eq!(page.update(message, NOW + 2), VotingAction::Store);
    assert_eq!(page.new_vote, ValidatedValue::empty());
    let state = page.poll_state.as_ref().unwrap();
    assert_eq!(state.stage(), PollStage::Voting { votes: 2, participants: 2 });
    assert_eq!(state.participants()[1].vote.as_ref().unwrap().inner, vote);

    let state = match page.update(VotingMessage::Done, NOW) {
        VotingAction::Done(state) => state,
        other => panic!("unexpected action: {other:?}"),
    };
    assert!(page.poll_state.is_none());

    // Closing the vote records our share; the other participant's share is entered.
    let message = AppMessage::VotesFinalized(id, state, Some(keys[0].clone()));
    let action = App::update(message, NOW + 3);
    assert_eq!(action.route, Route::Tallying { id });
    assert_eq!(action.state.stage(), PollStage::Tallying { shares: 1, participants: 2 });

    let mut page = Tallying::create(id, Some(action.state));
    assert!(!page.is_readonly);
    assert!(page.has_share(0) && !page.has_share(1));
    assert_eq!(page.update(TallyingMessage::ExportRequested(0), NOW), TallyingAction::Export(0));
    assert_eq!(page.update(TallyingMessage::ExportRequested(1), NOW), TallyingAction::Nothing);
    let message = TallyingMessage::ShareSet("[".to_owned(), Err("EOF".to_owned()));
    assert_eq!(page.update(message, NOW), TallyingAction::Render);
    assert_eq!(page.new_share.error_message.as_deref(), Some("Error parsing share: EOF"));

    let state = page.poll_state.as_ref().unwrap();
    let share = TallierShare::new(&keys[1], &id, state).unwrap();
    let mut mangled_share = share.clone();
    mangled_share.shares.pop();
    let message = TallyingMessage::ShareSet("{..}".to_owned(), Ok(mangled_share));
    assert_eq!(page.update(message, NOW), TallyingAction::Render);
    assert_eq!(
        page.new_share.error_message.as_deref(),
        Some("Error verifying share: unexpected number of options: expected 3, got 2")
    );
    assert!(!page.is_readonly);

    let message = TallyingMessage::ShareSet("{..}".to_owned(), Ok(share));
    assert_eq!(page.update(message, NOW + 4), TallyingAction::Store);
    assert_eq!(page.new_share, ValidatedValue::empty());
    assert!(page.is_readonly);
    let state = page.poll_state.as_ref().unwrap();
    assert_eq!(state.stage(), PollStage::Finished);
    assert_eq!(state.results(), Some(&vec![1, 1, 1]));
}

#[test]
fn tallying_page_submits_our_share_once_the_secret_is_unlocked() {
    let keys = [Keypair::generate(), Keypair::generate()];
    let (id, state) = voting_poll(PollType::SingleChoice, &keys);
    let mut page = Voting::create(id, Some(state), Some(*keys[1].public()));
    assert_eq!(page.our_choice, Some(VoteChoice::SingleChoice(0)));
    page.update(VotingMessage::OptionSelected(1, true), NOW);
    page.update(VotingMessage::OptionSelected(2, false), NOW);
    assert_eq!(page.our_choice, Some(VoteChoice::SingleChoice(1)));
    assert_eq!(page.update(VotingMessage::OurVoteAdded(keys[1].clone()), NOW), VotingAction::Store);
    let state = match page.update(VotingMessage::Done, NOW) {
        VotingAction::Done(state) => state,
        other => panic!("unexpected action: {other:?}"),
    };
    let action = App::update(AppMessage::VotesFinalized(id, state, None), NOW);
    assert_eq!(action.state.stage(), PollStage::Tallying { shares: 0, participants: 2 });

    let mut page = Tallying::create(id, Some(action.state));
    assert_eq!(page.update(TallyingMessage::SecretUpdated(None), NOW), TallyingAction::Nothing);
    let message = TallyingMessage::SecretUpdated(Some(Keypair::generate()));
    assert_eq!(page.update(message, NOW), TallyingAction::Nothing);
    let message = TallyingMessage::SecretUpdated(Some(keys[0].clone()));
    assert_eq!(page.update(message, NOW + 1), TallyingAction::Store);
    assert!(page.has_share(0) && !page.is_readonly);
    // Our share is submitted once.
    let message = TallyingMessage::SecretUpdated(Some(keys[0].clone()));
    assert_eq!(page.update(message, NOW + 2), TallyingAction::Store);
    let state = page.poll_state.as_ref().unwrap();
    assert_eq!(state.participants()[0].tallier_share.as_ref().unwrap().submitted_at, NOW + 1);

    assert_eq!(page.maybe_submit_our_share(Some(&keys[1]), NOW + 3), Some(()));
    assert!(page.is_readonly);
    assert_eq!(page.poll_state.as_ref().unwrap().results(), Some(&vec![0, 1, 0]));
    assert_eq!(page.maybe_submit_our_share(Some(&keys[1]), NOW + 4), Some(()));
    assert_eq!(page.maybe_submit_our_share(None, NOW + 4), None);
}

#[test]
fn home_page_takes_polls_in() {
    let keys = [Keypair::generate()];
    let (id, state) = voting_poll(PollType::SingleChoice, &keys);
    let mut page = Home::create();

    let message = HomeMessage::PollSet("#".to_owned(), Err("expected value".to_owned()));
    assert_eq!(page.update(message), HomeAction::Render);
    assert_eq!(page.new_poll.error_message.as_deref(), Some("Error parsing poll: expected value"));
    assert_eq!(page.new_poll.value, "#");

    let mut mangled = state.clone().export();
    mangled.shared_key = Some(*Keypair::generate().public());
    let message = HomeMessage::PollSet("{..}".to_owned(), Ok(mangled));
    assert_eq!(page.update(message), HomeAction::Render);
    assert_eq!(
        page.new_poll.error_message.as_deref(),
        Some("Error validating poll: parts of the poll contradict each other")
    );

    let mut mangled = state.clone().export();
    mangled.spec.nonce = 1;
    let message = HomeMessage::PollSet("{..}".to_owned(), Ok(mangled));
    assert_eq!(page.update(message), HomeAction::Render);
    let error = page.new_poll.error_message.as_deref().unwrap();
    assert!(
        error.starts_with("Error validating poll: cannot verify application of participant #1: "),
        "{error}"
    );

    let message = HomeMessage::PollSet("{..}".to_owned(), Ok(state.clone().export()));
    assert_eq!(page.update(message), HomeAction::Store(id, state));
    assert_eq!(page.new_poll, ValidatedValue::empty());

    assert_eq!(page.update(HomeMessage::ExportRequested(id)), HomeAction::Export(id));
    let message = HomeMessage::Removal(RemovalMessage::Requested(id));
    assert_eq!(page.update(message), HomeAction::Render);
    assert!(page.pending_removals.contains(&id.0));
    let message = HomeMessage::Removal(RemovalMessage::Cancelled(id));
    assert_eq!(page.update(message), HomeAction::Render);
    assert!(!page.pending_removals.contains(&id.0));
    page.update(HomeMessage::Removal(RemovalMessage::Requested(id)));
    let message = HomeMessage::Removal(RemovalMessage::Confirmed(id));
    assert_eq!(page.update(message), HomeAction::Remove(id));
    assert!(!page.pending_removals.contains(&id.0));
}

#[test]
fn import_errors_are_put_in_words() {
    let err = elasticpoll::proofs::VerificationError { message: "no".to_owned() };
    assert_eq!(
        ImportError::Inconsistent.to_string(),
        "parts of the poll contradict each other"
    );
    assert_eq!(
        ImportError::Application { index: 0, err: err.clone() }.to_string(),
        "cannot verify application of participant #1: no"
    );
    assert_eq!(
        ImportError::Vote { index: 9, err: elasticpoll::poll::VoteError::IneligibleVoter }
            .to_string(),
        "cannot verify vote of participant #10: voter is not eligible"
    );
    assert_eq!(
        ImportError::TallierShare {
            index: 2,
            err: elasticpoll::poll::TallierShareError::InvalidShare { index: 0, err },
        }
        .to_string(),
        "cannot verify tallier share of participant #3: cannot verify share for option #1: no"
    );
}

#[test]
fn secrets_dialog_follows_the_password() {
    let dialog = Secrets::create(Some(SecretManagerStatus::Locked));
    assert_eq!(dialog, Secrets { in_progress: false, new_secret: false, err: None });
    assert!(Secrets::create(Some(SecretManagerStatus::Unlocked)).new_secret);
    let mut dialog = Secrets::create(None);
    assert!(dialog.new_secret);

    let message = SecretsMessage::Submitted { new_secret: true, password: "12345".to_owned() };
    assert_eq!(dialog.update(message), SecretsAction::Seal("12345".to_owned()));
    assert!(dialog.in_progress);
    assert_eq!(dialog.update(SecretsMessage::Created), SecretsAction::Close);
    assert!(!dialog.in_progress);

    let message = SecretsMessage::Submitted { new_secret: false, password: "1234".to_owned() };
    assert_eq!(dialog.update(message), SecretsAction::Open("1234".to_owned()));
    assert!(dialog.in_progress);
    let message = SecretsMessage::ErrorUnlocking("wrong password".to_owned());
    assert_eq!(dialog.update(message), SecretsAction::Render);
    assert_eq!(dialog.err.as_deref(), Some("wrong password"));
    assert!(!dialog.in_progress);
    assert_eq!(dialog.update(SecretsMessage::Unlocked), SecretsAction::Close);
    assert_eq!(dialog.err, None);
}

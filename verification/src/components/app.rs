//! What the application decides when a stage of a poll is completed: the
//! poll as it goes on to the next stage, and the page to go to.

use crate::components::common::Route;
use crate::encoding::sha256_digest;
use crate::group::Keypair;
use crate::poll::state::combined_key;
use crate::poll::{PollId, PollSpec, PollState, PollStateView, TallierShare, TallyResult};
use vstd::prelude::*;
use vstd::utf8::encode_utf8;

verus! {

pub enum AppMessage {
    PollCreated(PollSpec),
    ParticipantsFinalized(PollId, PollState),
    /// The vote was closed; our keys for the poll are the given ones, if there
    /// are any.
    VotesFinalized(PollId, PollState, Option<Keypair>),
}

/// What is to be done once a stage is completed: the poll is to be stored
/// under its ID, and the page `route` is to be gone to, in the place of the
/// present page in the history of pages where `replace` is set.
#[derive(Debug)]
pub struct AppAction {
    pub id: PollId,
    pub state: PollState,
    pub route: Route,
    pub replace: bool,
}

/// Root application component.
#[derive(Debug)]
pub struct App;

impl App {
    /// Whether the application can take `message` in: a poll is created for a
    /// specification with 1 to 16 options, and only a poll that takes votes
    /// has its vote closed.
    pub open spec fn accepts(message: AppMessage) -> bool {
        match message {
            AppMessage::PollCreated(spec) => spec.valid(),
            AppMessage::ParticipantsFinalized(_, state) => state@.well_formed(),
            AppMessage::VotesFinalized(_, state, _) => state@.well_formed() && state@.shared_key
                is Some && state@.tally_result is None,
        }
    }

    /// Closes the vote of `state` and, where `our_keys` are a participant's,
    /// makes our tallier share and records it unless it is refused.
    pub fn finalize_votes(id: &PollId, state: &mut PollState, our_keys: Option<&Keypair>, now: u64)
        requires
            old(state)@.well_formed(),
            old(state)@.shared_key is Some,
            old(state)@.tally_result is None,
        ensures
            final(state)@.well_formed(),
            final(state)@.tally_result is Some,
            final(state)@.created_at == old(state)@.created_at,
            final(state)@.spec == old(state)@.spec,
            final(state)@.shared_key == old(state)@.shared_key,
            final(state)@.participants.len() == old(state)@.participants.len(),
            !(our_keys matches Some(keys) && old(state)@.has_participant(keys.public_key()))
                ==> final(state)@ == (PollStateView {
                tally_result: Some(TallyResult::InProgress),
                ..old(state)@
            }),
    {
        state.finalize_votes();
        match our_keys {
            Some(our_keys) => {
                if state.has_participant(our_keys.public()) {
                    match TallierShare::new(our_keys, id, state) {
                        Some(share) => {
                            // A share that is refused is not recorded.
                            let _ = state.insert_tallier_share(id, share, now);
                        },
                        None => {},
                    }
                }
            },
            None => {},
        }
    }

    /// Takes `message` in at the time `now` and says what is to be done next.
    pub fn update(message: AppMessage, now: u64) -> (action: AppAction)
        requires
            Self::accepts(message),
        ensures
            action.state@.well_formed(),
            match message {
                AppMessage::PollCreated(spec) => {
                    &&& action.id@ == sha256_digest(encode_utf8(spec.canonical_json()))
                    &&& action.state@ == (PollStateView {
                        created_at: now,
                        spec,
                        participants: Seq::empty(),
                        shared_key: None,
                        tally_result: None,
                    })
                    &&& action.route == (Route::PollParticipants { id: action.id })
                    &&& action.replace
                },
                AppMessage::ParticipantsFinalized(id, state) => {
                    &&& action.id == id
                    &&& action.state@.created_at == state@.created_at
                    &&& action.state@.spec == state@.spec
                    &&& action.state@.participants == state@.participants
                    &&& action.state@.tally_result == state@.tally_result
                    &&& match action.state@.shared_key {
                        Some(key) => combined_key(state@.participants) == Some(key@),
                        None => combined_key(state@.participants) is None,
                    }
                    &&& action.route == (Route::Voting { id })
                    &&& !action.replace
                },
                AppMessage::VotesFinalized(id, state, our_keys) => {
                    &&& action.id == id
                    &&& action.state@.tally_result is Some
                    &&& action.state@.created_at == state@.created_at
                    &&& action.state@.spec == state@.spec
                    &&& action.state@.shared_key == state@.shared_key
                    &&& action.state@.participants.len() == state@.participants.len()
                    &&& !(our_keys matches Some(keys) && state@.has_participant(keys.public_key()))
                        ==> action.state@ == (PollStateView {
                        tally_result: Some(TallyResult::InProgress),
                        ..state@
                    })
                    &&& action.route == (Route::Tallying { id })
                    &&& !action.replace
                },
            },
    {
        match message {
            AppMessage::PollCreated(spec) => {
                let id = PollId::for_spec(&spec);
                let state = PollState::new(spec, now);
                AppAction { id, state, route: Route::PollParticipants { id }, replace: true }
            },
            AppMessage::ParticipantsFinalized(id, state) => {
                let mut state = state;
                state.finalize_participants();
                AppAction { id, state, route: Route::Voting { id }, replace: false }
            },
            AppMessage::VotesFinalized(id, state, our_keys) => {
                let mut state = state;
                Self::finalize_votes(&id, &mut state, our_keys.as_ref(), now);
                AppAction { id, state, route: Route::Tallying { id }, replace: false }
            },
        }
    }
}

} // verus!

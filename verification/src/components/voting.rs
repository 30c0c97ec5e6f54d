//! Voting page: what the page decides when a choice is made, a vote is
//! entered, or the vote is closed.

use crate::components::common::ValidatedValue;
use crate::group::{public_key_decodes, Keypair, PublicKey};
use crate::poll::state::{has_voted, vote_recorded};
use crate::poll::{PollId, PollState, PollType, Vote, VoteChoice};
use vstd::prelude::*;

verus! {

pub enum VotingMessage {
    OptionSelected(usize, bool),
    /// A vote was entered as text, and read as a vote or refused with the
    /// given reason.
    VoteSet(String, Result<Vote, String>),
    /// We vote with our keys for the poll.
    OurVoteAdded(Keypair),
    ExportRequested(usize),
    /// The secret was unlocked or locked: our public key for the poll is the
    /// given one, if there is one.
    SecretUpdated(Option<PublicKey>),
    Done,
}

/// What is to be done once the page has taken a message in.
#[derive(Debug, PartialEq, Eq)]
pub enum VotingAction {
    /// The page is to be shown again.
    Render,
    /// The poll has changed: it is to be stored, and the page shown again.
    Store,
    /// The vote of the participant at the given place is to be handed over
    /// for export.
    Export(usize),
    /// The vote is to be closed for the poll that is handed over.
    Done(PollState),
    /// Nothing is to be done.
    Nothing,
}

/// Voting page component.
#[derive(Debug)]
pub struct Voting {
    pub poll_id: PollId,
    pub poll_state: Option<PollState>,
    pub is_readonly: bool,
    pub our_choice: Option<VoteChoice>,
    pub new_vote: ValidatedValue<String>,
}

impl Voting {
    /// The poll of the page, if there is one, is well-formed; a page that can
    /// be written to has a poll that takes votes; and our choice, if we have
    /// one, can be made in the poll.
    pub open spec fn well_formed(&self) -> bool {
        &&& self.poll_state matches Some(state) ==> state@.well_formed()
        &&& !self.is_readonly ==> (self.poll_state matches Some(state) && state@.shared_key is Some
            && state@.tally_result is None)
        &&& self.our_choice matches Some(choice) ==> (self.poll_state matches Some(state)
            && choice.fits(state@.spec.options@.len()))
    }

    /// Whether the page can take `message` in: only an option of the poll is
    /// selected, only a page that can be written to takes votes in, only a
    /// vote that can be signed is entered, and only a page with a poll is done.
    pub open spec fn accepts(&self, message: VotingMessage) -> bool {
        match message {
            VotingMessage::OptionSelected(option_idx, _) => self.poll_state matches Some(state)
                ==> option_idx < state@.spec.options@.len(),
            VotingMessage::VoteSet(_, parsed) => !self.is_readonly && (parsed matches Ok(vote)
                ==> vote.choice.signable()),
            VotingMessage::OurVoteAdded(_) => !self.is_readonly,
            VotingMessage::Done => self.poll_state is Some,
            _ => true,
        }
    }

    /// The choice with which we start in the poll, if we take part in it.
    pub fn default_choice(poll_state: Option<&PollState>, our_key: Option<PublicKey>) -> (choice:
        Option<VoteChoice>)
        requires
            poll_state matches Some(state) ==> state@.well_formed(),
        ensures
            choice is Some <==> (poll_state matches Some(state) && our_key matches Some(key)
                && state@.has_participant(key)),
            choice matches Some(choice) ==> {
                &&& poll_state matches Some(state)
                &&& choice.fits(state@.spec.options@.len())
                &&& choice.spec_poll_type() == state@.spec.poll_type
                &&& state@.spec.poll_type == PollType::SingleChoice ==> choice
                    == VoteChoice::SingleChoice(0)
                &&& choice matches VoteChoice::MultiChoice(choices) ==> forall|i: int|
                    0 <= i < choices.len() ==> !choices[i]
            },
    {
        match (poll_state, our_key) {
            (Some(state), Some(key)) => {
                if state.has_participant(&key) {
                    Some(VoteChoice::default(state.spec()))
                } else {
                    None
                }
            },
            _ => None,
        }
    }

    /// The page for the poll `poll_id` in the state `poll_state`, which is
    /// `None` where the poll is not known. The page can be written to while
    /// the poll takes votes.
    pub fn create(poll_id: PollId, poll_state: Option<PollState>, our_key: Option<PublicKey>) -> (page:
        Self)
        requires
            poll_state matches Some(state) ==> state@.well_formed(),
        ensures
            page.well_formed(),
            page.poll_id == poll_id,
            page.poll_state == poll_state,
            page.is_readonly == !(poll_state matches Some(state) && state@.shared_key is Some
                && state@.tally_result is None),
            page.our_choice is Some <==> (poll_state matches Some(state) && our_key matches Some(
                key,
            ) && state@.has_participant(key)),
            page.new_vote.value@ == Seq::<char>::empty(),
            page.new_vote.error_message is None,
    {
        let is_readonly = match &poll_state {
            Some(state) => !(state.finalized_key().is_some() && state.tally_result().is_none()),
            None => true,
        };
        let our_choice = Self::default_choice(poll_state.as_ref(), our_key);
        Voting { poll_id, poll_state, is_readonly, our_choice, new_vote: ValidatedValue::empty() }
    }

    /// Whether the participant at the place `idx` has voted.
    pub fn has_vote(&self, idx: usize) -> (voted: bool)
        ensures
            voted == (self.poll_state matches Some(state) && idx < state@.participants.len()
                && state@.participants[idx as int].vote is Some),
    {
        match &self.poll_state {
            Some(state) => {
                let participants = state.participants();
                idx < participants.len() && participants[idx].vote.is_some()
            },
            None => false,
        }
    }

    /// What [`Voting::set_vote`] makes of the page `before`: the page `after`,
    /// and whether the poll has changed.
    pub open spec fn vote_set(
        before: Voting,
        after: Voting,
        vote: String,
        parsed: Result<Vote, String>,
        now: u64,
        changed: bool,
    ) -> bool {
        &&& after.poll_id == before.poll_id
        &&& after.is_readonly == before.is_readonly
        &&& after.our_choice == before.our_choice
        &&& match parsed {
            Err(err) => {
                &&& !changed
                &&& after.poll_state == before.poll_state
                &&& after.new_vote.value == vote
                &&& after.new_vote.error() == Some("Error parsing vote: "@ + err@)
            },
            Ok(parsed) => match parsed.verified(before.poll_id, before.poll_state->0@) {
                Err(err) => {
                    &&& !changed
                    &&& after.poll_state matches Some(state)
                    &&& state@ == before.poll_state->0@
                    &&& after.new_vote.value == vote
                    &&& after.new_vote.error() == Some("Error verifying vote: "@ + err.text())
                },
                Ok(_) => {
                    &&& changed
                    &&& after.poll_state matches Some(state)
                    &&& state@.created_at == before.poll_state->0@.created_at
                    &&& state@.spec == before.poll_state->0@.spec
                    &&& state@.shared_key == before.poll_state->0@.shared_key
                    &&& state@.tally_result == before.poll_state->0@.tally_result
                    &&& vote_recorded(
                        before.poll_state->0@.participants,
                        state@.participants,
                        parsed,
                        now,
                    )
                    &&& after.new_vote.value@ == Seq::<char>::empty()
                    &&& after.new_vote.error_message is None
                },
            },
        }
    }

    /// Takes in the vote that was entered as text: where it was read and
    /// passes its check, it is recorded and the entry is cleared; where it was
    /// not read or is refused, the text is kept with the reason. Says whether
    /// the poll has changed.
    pub fn set_vote(&mut self, vote: String, parsed: Result<Vote, String>, now: u64) -> (changed:
        bool)
        requires
            old(self).well_formed(),
            !old(self).is_readonly,
            parsed matches Ok(vote) ==> vote.choice.signable(),
        ensures
            final(self).well_formed(),
            Self::vote_set(*old(self), *final(self), vote, parsed, now, changed),
    {
        let parsed_vote = match parsed {
            Ok(vote) => vote,
            Err(err) => {
                self.new_vote = ValidatedValue::refused(vote, "Error parsing vote: ", err.as_str());
                return false;
            },
        };
        match &mut self.poll_state {
            Some(state) => {
                match state.insert_vote(&self.poll_id, parsed_vote, now) {
                    Err(err) => {
                        self.new_vote = ValidatedValue::refused(
                            vote,
                            "Error verifying vote: ",
                            err.to_string().as_str(),
                        );
                        return false;
                    },
                    Ok(_) => {},
                }
            },
            None => {},
        }
        self.new_vote = ValidatedValue::empty();
        true
    }

    /// Encrypts our choice, if we have made one, signs it with `our_keypair`
    /// and records the vote, if the keys are a participant's. Says whether the
    /// poll has changed: it has exactly where we have made a choice, the keys
    /// are a participant's, the shared key of the poll decodes and our secret
    /// key can be read.
    pub fn insert_our_vote(&mut self, our_keypair: &Keypair, now: u64) -> (changed: bool)
        requires
            old(self).well_formed(),
            !old(self).is_readonly,
        ensures
            final(self).well_formed(),
            final(self).poll_id == old(self).poll_id,
            final(self).is_readonly == old(self).is_readonly,
            final(self).our_choice == old(self).our_choice,
            final(self).new_vote == old(self).new_vote,
            changed <==> {
                &&& old(self).our_choice is Some
                &&& old(self).poll_state->0@.has_participant(our_keypair.public_key())
                &&& public_key_decodes(old(self).poll_state->0@.shared_key->0@)
                &&& our_keypair.readable()
            },
            changed ==> {
                &&& old(self).our_choice matches Some(choice)
                &&& old(self).poll_state->0@.has_participant(our_keypair.public_key())
                &&& final(self).poll_state matches Some(state)
                &&& state@.spec == old(self).poll_state->0@.spec
                &&& state@.shared_key == old(self).poll_state->0@.shared_key
                &&& state@.tally_result == old(self).poll_state->0@.tally_result
                &&& exists|vote: Vote| #[trigger]
                    vote_recorded(
                        old(self).poll_state->0@.participants,
                        state@.participants,
                        vote,
                        now,
                    ) && vote.public_key == our_keypair.public_key()
                        && vote.choice.spec_poll_type() == choice.spec_poll_type()
            },
            !changed ==> (final(self).poll_state matches Some(state) && state@
                == old(self).poll_state->0@),
    {
        match (&mut self.poll_state, &self.our_choice) {
            (Some(state), Some(choice)) => {
                if !state.has_participant(our_keypair.public()) {
                    return false;
                }
                match Vote::new(our_keypair, &self.poll_id, state, choice) {
                    Some(vote) => {
                        state.insert_unchecked_vote(vote, now);
                        true
                    },
                    None => false,
                }
            },
            _ => false,
        }
    }

    /// Takes `message` in at the time `now` and says what is to be done next.
    pub fn update(&mut self, message: VotingMessage, now: u64) -> (action: VotingAction)
        requires
            old(self).well_formed(),
            old(self).accepts(message),
        ensures
            final(self).poll_id == old(self).poll_id,
            final(self).is_readonly == old(self).is_readonly,
            !(message is Done) ==> final(self).well_formed(),
            match message {
                VotingMessage::OptionSelected(option_idx, selected) => {
                    &&& action == VotingAction::Render
                    &&& final(self).poll_state == old(self).poll_state
                    &&& final(self).new_vote == old(self).new_vote
                    &&& match old(self).our_choice {
                        None => final(self).our_choice is None,
                        Some(VoteChoice::SingleChoice(choice)) => final(self).our_choice == Some(
                            VoteChoice::SingleChoice(
                                if selected {
                                    option_idx
                                } else {
                                    choice
                                },
                            ),
                        ),
                        Some(VoteChoice::MultiChoice(choices)) => final(self).our_choice matches Some(
                            VoteChoice::MultiChoice(updated),
                        ) && updated@ == choices@.update(option_idx as int, selected),
                    }
                },
                VotingMessage::VoteSet(vote, parsed) => exists|changed: bool| #[trigger]
                    Self::vote_set(*old(self), *final(self), vote, parsed, now, changed) && action
                        == (if changed {
                        VotingAction::Store
                    } else {
                        VotingAction::Render
                    }),
                VotingMessage::OurVoteAdded(keys) => {
                    &&& final(self).our_choice == old(self).our_choice
                    &&& final(self).new_vote == old(self).new_vote
                    &&& action == VotingAction::Store || action == VotingAction::Render
                    &&& action == VotingAction::Store ==> (final(self).poll_state matches Some(
                        state,
                    ) && has_voted(state@.participants, keys.public_key()))
                    &&& action == VotingAction::Render ==> (final(self).poll_state matches Some(
                        state,
                    ) && state@ == old(self).poll_state->0@)
                },
                VotingMessage::ExportRequested(idx) => {
                    &&& action == (if old(self).poll_state matches Some(state) && idx
                        < state@.participants.len() && state@.participants[idx as int].vote
                        is Some {
                        VotingAction::Export(idx)
                    } else {
                        VotingAction::Nothing
                    })
                    &&& *final(self) == *old(self)
                },
                VotingMessage::SecretUpdated(our_key) => {
                    &&& action == VotingAction::Render
                    &&& final(self).poll_state == old(self).poll_state
                    &&& final(self).new_vote == old(self).new_vote
                    &&& old(self).our_choice is Some ==> final(self).our_choice == old(self).our_choice
                    &&& old(self).our_choice is None ==> (final(self).our_choice is Some <==> (
                    old(self).poll_state matches Some(state) && our_key matches Some(key)
                        && state@.has_participant(key)))
                },
                VotingMessage::Done => {
                    &&& old(self).poll_state matches Some(state) && action == VotingAction::Done(
                        state,
                    )
                    &&& final(self).poll_state is None
                    &&& final(self).our_choice == old(self).our_choice
                    &&& final(self).new_vote == old(self).new_vote
                },
            },
    {
        match message {
            VotingMessage::OptionSelected(option_idx, selected) => {
                match &mut self.our_choice {
                    Some(choice) => {
                        choice.select(option_idx, selected);
                    },
                    None => {},
                }
            },
            VotingMessage::VoteSet(vote, parsed) => {
                if self.set_vote(vote, parsed, now) {
                    return VotingAction::Store;
                }
            },
            VotingMessage::OurVoteAdded(keys) => {
                if self.insert_our_vote(&keys, now) {
                    proof {
                        let before = old(self).poll_state->0@.participants;
                        let after = self.poll_state->0@.participants;
                        let vote = choose|vote: Vote| #[trigger]
                            vote_recorded(before, after, vote, now) && vote.public_key
                                == keys.public_key();
                        let i = choose|i: int|
                            0 <= i < before.len() && (#[trigger] before[i]).key()@
                                == keys.public_key()@;
                        assert(after[i].key()@ == keys.public_key()@ && after[i].vote is Some);
                    }
                    return VotingAction::Store;
                }
            },
            VotingMessage::ExportRequested(idx) => {
                return if self.has_vote(idx) {
                    VotingAction::Export(idx)
                } else {
                    VotingAction::Nothing
                };
            },
            VotingMessage::SecretUpdated(our_key) => {
                if self.our_choice.is_none() {
                    self.our_choice = Self::default_choice(self.poll_state.as_ref(), our_key);
                }
            },
            VotingMessage::Done => {
                match self.poll_state.take() {
                    Some(state) => {
                        return VotingAction::Done(state);
                    },
                    None => {},
                }
            },
        }
        VotingAction::Render
    }
}

} // verus!

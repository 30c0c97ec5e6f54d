//! Poll participants wizard page: what the page decides when an application
//! is entered, a participant is removed, or the set of participants is closed.

use crate::components::common::{PendingRemovals, RemovalMessage, ValidatedValue};
use crate::group::{Keypair, PublicKey};
use crate::poll::state::with_application;
use crate::poll::{ParticipantApplication, PollId, PollState, PollStateView};
use crate::proofs::possession_outcome;
use vstd::prelude::*;

verus! {

pub enum ParticipantsMessage {
    /// An application was entered as text, and read as an application or
    /// refused with the given reason.
    ApplicationSet(String, Result<ParticipantApplication, String>),
    Removal(RemovalMessage<PublicKey>),
    /// We apply with our keys for the poll.
    UsAdded(Keypair),
    ExportRequested(usize),
    SecretUpdated,
    Done,
}

/// What is to be done once the page has taken a message in.
#[derive(Debug, PartialEq, Eq)]
pub enum ParticipantsAction {
    /// The page is to be shown again.
    Render,
    /// The poll has changed: it is to be stored, and the page shown again.
    Store,
    /// The application of the participant at the given place is to be handed
    /// over for export.
    Export(usize),
    /// The set of participants is to be closed for the poll that is handed
    /// over.
    Done(PollState),
    /// Nothing is to be done.
    Nothing,
}

/// Participants page.
#[derive(Debug)]
pub struct Participants {
    pub poll_id: PollId,
    pub poll_state: Option<PollState>,
    pub is_readonly: bool,
    pub new_application: ValidatedValue<String>,
    pub pending_removals: PendingRemovals,
}

impl Participants {
    /// The poll of the page, if there is one, is well-formed, and a page that
    /// can be written to has a poll whose set of participants is open.
    pub open spec fn well_formed(&self) -> bool {
        &&& self.poll_state matches Some(state) ==> state@.well_formed()
        &&& !self.is_readonly ==> (self.poll_state matches Some(state) && state@.shared_key is None)
    }

    /// Whether the page can take `message` in: only a page that can be written
    /// to takes in applications and removals, only a participant's application
    /// is exported, and only a page with a poll is done.
    pub open spec fn accepts(&self, message: ParticipantsMessage) -> bool {
        match message {
            ParticipantsMessage::ApplicationSet(_, _) => !self.is_readonly,
            ParticipantsMessage::Removal(RemovalMessage::Confirmed(_)) => !self.is_readonly,
            ParticipantsMessage::UsAdded(_) => !self.is_readonly,
            ParticipantsMessage::ExportRequested(idx) => self.poll_state matches Some(state)
                ==> idx < state@.participants.len(),
            ParticipantsMessage::Done => self.poll_state is Some,
            _ => true,
        }
    }

    /// The page for the poll `poll_id` in the state `poll_state`, which is
    /// `None` where the poll is not known. The page can be written to while
    /// the set of participants is open.
    pub fn create(poll_id: PollId, poll_state: Option<PollState>) -> (page: Self)
        requires
            poll_state matches Some(state) ==> state@.well_formed(),
        ensures
            page.well_formed(),
            page.poll_id == poll_id,
            page.poll_state == poll_state,
            page.is_readonly == !(poll_state matches Some(state) && state@.shared_key is None),
            page.new_application.value@ == Seq::<char>::empty(),
            page.new_application.error_message is None,
            page.pending_removals@ == Set::<Seq<u8>>::empty(),
    {
        let is_readonly = match &poll_state {
            Some(state) => state.finalized_key().is_some(),
            None => true,
        };
        Participants {
            poll_id,
            poll_state,
            is_readonly,
            new_application: ValidatedValue::empty(),
            pending_removals: PendingRemovals::new(),
        }
    }

    /// Whether the holder of `our_key`, if we have one, takes part in the poll.
    pub fn we_are_participant(state: &PollState, our_key: Option<PublicKey>) -> (taking_part: bool)
        ensures
            taking_part == (our_key matches Some(key) && state@.has_participant(key)),
    {
        match our_key {
            Some(key) => state.has_participant(&key),
            None => false,
        }
    }

    /// Admits the applicant to the poll of the page.
    pub fn add_participant(&mut self, participant: ParticipantApplication, now: u64)
        requires
            old(self).well_formed(),
            !old(self).is_readonly,
        ensures
            final(self).well_formed(),
            final(self).poll_state matches Some(state) && state@ == (PollStateView {
                participants: with_application(
                    old(self).poll_state->0@.participants,
                    participant,
                    now,
                ),
                ..old(self).poll_state->0@
            }) && state@.has_participant(participant.public_key),
            final(self).poll_id == old(self).poll_id,
            final(self).is_readonly == old(self).is_readonly,
            final(self).new_application == old(self).new_application,
            final(self).pending_removals == old(self).pending_removals,
    {
        match &mut self.poll_state {
            Some(state) => {
                state.insert_participant(participant, now);
            },
            None => {},
        }
    }

    /// Removes the participant with the public key `key`, if there is one, and
    /// says whether there was.
    pub fn remove_participant(&mut self, key: &PublicKey) -> (removed: bool)
        requires
            old(self).well_formed(),
            !old(self).is_readonly,
        ensures
            final(self).well_formed(),
            removed == old(self).poll_state->0@.has_participant(*key),
            final(self).poll_state matches Some(state) && if removed {
                exists|index: int|
                    0 <= index < old(self).poll_state->0@.participants.len() && (
                    #[trigger] old(self).poll_state->0@.participants[index]).key()@ == key@
                        && state@ == (PollStateView {
                        participants: old(self).poll_state->0@.participants.remove(index),
                        ..old(self).poll_state->0@
                    })
            } else {
                state@ == old(self).poll_state->0@
            },
            final(self).poll_id == old(self).poll_id,
            final(self).is_readonly == old(self).is_readonly,
            final(self).new_application == old(self).new_application,
            final(self).pending_removals == old(self).pending_removals,
    {
        match &mut self.poll_state {
            Some(state) => {
                match state.position(key) {
                    Some(idx) => {
                        state.remove_participant(idx);
                        true
                    },
                    None => false,
                }
            },
            None => false,
        }
    }

    /// What [`Participants::set_application`] makes of the page `before`: the
    /// page `after`, and whether the poll has changed.
    pub open spec fn application_set(
        before: Participants,
        after: Participants,
        application: String,
        parsed: Result<ParticipantApplication, String>,
        now: u64,
        changed: bool,
    ) -> bool {
        &&& after.poll_id == before.poll_id
        &&& after.is_readonly == before.is_readonly
        &&& after.pending_removals == before.pending_removals
        &&& match parsed {
            Err(err) => {
                &&& !changed
                &&& after.poll_state == before.poll_state
                &&& after.new_application.value == application
                &&& after.new_application.error() == Some("Error parsing application: "@ + err@)
            },
            Ok(parsed) => match possession_outcome(
                parsed.public_key@,
                parsed.participation_consent@,
                ParticipantApplication::consent_transcript(before.poll_id),
            ) {
                Err(err) => {
                    &&& !changed
                    &&& after.poll_state == before.poll_state
                    &&& after.new_application.value == application
                    &&& after.new_application.error() == Some(
                        "Error validating application: "@ + err.message@,
                    )
                },
                Ok(_) => {
                    &&& changed
                    &&& after.poll_state matches Some(state)
                    &&& state@ == (PollStateView {
                        participants: with_application(
                            before.poll_state->0@.participants,
                            parsed,
                            now,
                        ),
                        ..before.poll_state->0@
                    })
                    &&& after.new_application.value@ == Seq::<char>::empty()
                    &&& after.new_application.error_message is None
                },
            },
        }
    }

    /// Takes in the application that was entered as text: where it was read
    /// and is valid, the applicant is admitted and the entry is cleared; where
    /// it was not read or is not valid, the text is kept with the reason.
    /// Says whether the poll has changed.
    pub fn set_application(
        &mut self,
        application: String,
        parsed: Result<ParticipantApplication, String>,
        now: u64,
    ) -> (changed: bool)
        requires
            old(self).well_formed(),
            !old(self).is_readonly,
        ensures
            final(self).well_formed(),
            Self::application_set(*old(self), *final(self), application, parsed, now, changed),
    {
        let parsed_application = match parsed {
            Ok(application) => application,
            Err(err) => {
                self.new_application = ValidatedValue::refused(
                    application,
                    "Error parsing application: ",
                    err.as_str(),
                );
                return false;
            },
        };
        match parsed_application.validate(&self.poll_id) {
            Err(err) => {
                self.new_application = ValidatedValue::refused(
                    application,
                    "Error validating application: ",
                    err.message.as_str(),
                );
                return false;
            },
            Ok(_) => {},
        }
        self.add_participant(parsed_application, now);
        self.new_application = ValidatedValue::empty();
        true
    }

    /// Our application for the poll of the page, made with `our_keypair`:
    /// there is one exactly where the secret key can be read, under the pair's
    /// public key.
    pub fn create_our_participant(&self, our_keypair: &Keypair) -> (application: Option<
        ParticipantApplication,
    >)
        ensures
            application is Some <==> our_keypair.readable(),
            application matches Some(application) ==> application.public_key
                == our_keypair.public_key(),
    {
        ParticipantApplication::new(our_keypair, &self.poll_id)
    }

    /// Takes `message` in at the time `now` and says what is to be done next.
    pub fn update(&mut self, message: ParticipantsMessage, now: u64) -> (action: ParticipantsAction)
        requires
            old(self).well_formed(),
            old(self).accepts(message),
        ensures
            final(self).poll_id == old(self).poll_id,
            final(self).is_readonly == old(self).is_readonly,
            !(message is Done) ==> final(self).well_formed(),
            match message {
                ParticipantsMessage::ApplicationSet(application, parsed) => exists|changed: bool|
                    #[trigger] Self::application_set(
                        *old(self),
                        *final(self),
                        application,
                        parsed,
                        now,
                        changed,
                    ) && action == (if changed {
                        ParticipantsAction::Store
                    } else {
                        ParticipantsAction::Render
                    }),
                ParticipantsMessage::Removal(RemovalMessage::Requested(key)) => {
                    &&& action == ParticipantsAction::Render
                    &&& final(self).pending_removals@ == old(self).pending_removals@.insert(key@)
                    &&& final(self).poll_state == old(self).poll_state
                    &&& final(self).new_application == old(self).new_application
                },
                ParticipantsMessage::Removal(RemovalMessage::Cancelled(key)) => {
                    &&& action == ParticipantsAction::Render
                    &&& final(self).pending_removals@ == old(self).pending_removals@.remove(key@)
                    &&& final(self).poll_state == old(self).poll_state
                    &&& final(self).new_application == old(self).new_application
                },
                ParticipantsMessage::Removal(RemovalMessage::Confirmed(key)) => {
                    &&& action == (if old(self).poll_state->0@.has_participant(key) {
                        ParticipantsAction::Store
                    } else {
                        ParticipantsAction::Render
                    })
                    &&& final(self).pending_removals@ == old(self).pending_removals@.remove(key@)
                    &&& final(self).poll_state matches Some(state) && !state@.has_participant(key)
                    &&& final(self).new_application == old(self).new_application
                },
                ParticipantsMessage::UsAdded(keys) => {
                    &&& final(self).pending_removals == old(self).pending_removals
                    &&& final(self).new_application == old(self).new_application
                    &&& action == ParticipantsAction::Store || action == ParticipantsAction::Render
                    &&& action == ParticipantsAction::Store ==> exists|us: ParticipantApplication|
                        us.public_key == keys.public_key() && (final(self).poll_state matches Some(
                            state,
                        ) && state@ == (PollStateView {
                            participants: #[trigger] with_application(
                                old(self).poll_state->0@.participants,
                                us,
                                now,
                            ),
                            ..old(self).poll_state->0@
                        }))
                    &&& action == ParticipantsAction::Render ==> final(self).poll_state
                        == old(self).poll_state
                },
                ParticipantsMessage::ExportRequested(idx) => {
                    &&& action == (if old(self).poll_state is Some {
                        ParticipantsAction::Export(idx)
                    } else {
                        ParticipantsAction::Nothing
                    })
                    &&& *final(self) == *old(self)
                },
                ParticipantsMessage::SecretUpdated => {
                    &&& action == ParticipantsAction::Render
                    &&& *final(self) == *old(self)
                },
                ParticipantsMessage::Done => {
                    &&& old(self).poll_state matches Some(state) && action
                        == ParticipantsAction::Done(state)
                    &&& final(self).poll_state is None
                    &&& final(self).pending_removals == old(self).pending_removals
                    &&& final(self).new_application == old(self).new_application
                },
            },
    {
        match message {
            ParticipantsMessage::ApplicationSet(application, parsed) => {
                if self.set_application(application, parsed, now) {
                    return ParticipantsAction::Store;
                }
            },
            ParticipantsMessage::Removal(RemovalMessage::Requested(key)) => {
                self.pending_removals.insert(key.bytes);
            },
            ParticipantsMessage::Removal(RemovalMessage::Cancelled(key)) => {
                self.pending_removals.remove(&key.bytes);
            },
            ParticipantsMessage::Removal(RemovalMessage::Confirmed(key)) => {
                let removed = self.remove_participant(&key);
                self.pending_removals.remove(&key.bytes);
                if removed {
                    return ParticipantsAction::Store;
                }
            },
            ParticipantsMessage::UsAdded(keys) => {
                match self.create_our_participant(&keys) {
                    Some(us) => {
                        self.add_participant(us, now);
                        return ParticipantsAction::Store;
                    },
                    None => {},
                }
            },
            ParticipantsMessage::ExportRequested(idx) => {
                return if self.poll_state.is_some() {
                    ParticipantsAction::Export(idx)
                } else {
                    ParticipantsAction::Nothing
                };
            },
            ParticipantsMessage::SecretUpdated => {
                // Do nothing specific, just re-render the component.
            },
            ParticipantsMessage::Done => {
                match self.poll_state.take() {
                    Some(state) => {
                        return ParticipantsAction::Done(state);
                    },
                    None => {},
                }
            },
        }
        ParticipantsAction::Render
    }
}

} // verus!

//! Tallying page: what the page decides when a tallier share is entered or
//! our secret is unlocked.

use crate::components::common::ValidatedValue;
use crate::group::Keypair;
use crate::poll::state::{completed_by, with_share};
use crate::poll::tally::{share_lists, tally};
use crate::poll::{PollId, PollState, PollStateView, TallierShare, TallierShareError, TallyResult};
use vstd::prelude::*;

verus! {

pub enum TallyingMessage {
    /// A tallier share was entered as text, and read as a share or refused
    /// with the given reason.
    ShareSet(String, Result<TallierShare, String>),
    ExportRequested(usize),
    /// The secret was unlocked or locked: our keys for the poll are the given
    /// ones, if there are any.
    SecretUpdated(Option<Keypair>),
}

/// What is to be done once the page has taken a message in.
#[derive(Debug, Clone, Copy, PartialEq, Eq, Structural)]
pub enum TallyingAction {
    /// The page is to be shown again.
    Render,
    /// The poll is to be stored, and the page shown again.
    Store,
    /// The tallier share of the participant at the given place is to be
    /// handed over for export.
    Export(usize),
    /// Nothing is to be done.
    Nothing,
}

/// Tallying page.
#[derive(Debug)]
pub struct Tallying {
    pub poll_id: PollId,
    pub poll_state: Option<PollState>,
    pub is_readonly: bool,
    pub new_share: ValidatedValue<String>,
}

impl Tallying {
    /// The poll of the page, if there is one, is well-formed, and a page that
    /// can be written to has a poll whose votes are being tallied.
    pub open spec fn well_formed(&self) -> bool {
        &&& self.poll_state matches Some(state) ==> state@.well_formed()
        &&& !self.is_readonly ==> (self.poll_state matches Some(state) && state@.tally_result
            == Some(TallyResult::InProgress))
    }

    /// Whether the page can take `message` in: only a page that can be written
    /// to takes shares in.
    pub open spec fn accepts(&self, message: TallyingMessage) -> bool {
        match message {
            TallyingMessage::ShareSet(_, _) => !self.is_readonly,
            _ => true,
        }
    }

    /// The page for the poll `poll_id` in the state `poll_state`, which is
    /// `None` where the poll is not known. The page can be written to while
    /// the votes of the poll are being tallied.
    pub fn create(poll_id: PollId, poll_state: Option<PollState>) -> (page: Self)
        requires
            poll_state matches Some(state) ==> state@.well_formed(),
        ensures
            page.well_formed(),
            page.poll_id == poll_id,
            page.poll_state == poll_state,
            page.is_readonly == !(poll_state matches Some(state) && state@.tally_result == Some(
                TallyResult::InProgress,
            )),
            page.new_share.value@ == Seq::<char>::empty(),
            page.new_share.error_message is None,
    {
        let is_readonly = match &poll_state {
            Some(state) => !Self::is_tallying(state),
            None => true,
        };
        Tallying { poll_id, poll_state, is_readonly, new_share: ValidatedValue::empty() }
    }

    /// Whether the votes of the poll are being tallied.
    fn is_tallying(state: &PollState) -> (tallying: bool)
        ensures
            tallying == (state@.tally_result == Some(TallyResult::InProgress)),
    {
        match state.tally_result() {
            Some(TallyResult::InProgress) => true,
            _ => false,
        }
    }

    /// Whether the participant at the place `idx` has submitted a share.
    pub fn has_share(&self, idx: usize) -> (shared: bool)
        ensures
            shared == (self.poll_state matches Some(state) && idx < state@.participants.len()
                && state@.participants[idx as int].tallier_share is Some),
    {
        match &self.poll_state {
            Some(state) => {
                let participants = state.participants();
                idx < participants.len() && participants[idx].tallier_share.is_some()
            },
            None => false,
        }
    }

    /// What the poll `before` refuses the share `share` with, if it refuses
    /// it: the share does not pass its check, or it is the last share that was
    /// missing and the votes cannot be decrypted with it.
    pub open spec fn refusal(
        before: PollStateView,
        poll_id: PollId,
        share: TallierShare,
    ) -> Option<TallierShareError> {
        match share.verified(poll_id, before) {
            Err(err) => Some(err),
            Ok(_) => if completed_by(before.participants, share.public_key) && tally(
                before.participants,
                share_lists(before.participants, Some(share)),
                before.spec.options@.len(),
            ) is None {
                Some(TallierShareError::Undecryptable)
            } else {
                None
            },
        }
    }

    /// What [`Tallying::set_share`] makes of the page `before`: the page
    /// `after`, and whether the poll has changed.
    pub open spec fn share_set(
        before: Tallying,
        after: Tallying,
        share: String,
        parsed: Result<TallierShare, String>,
        now: u64,
        changed: bool,
    ) -> bool {
        &&& after.poll_id == before.poll_id
        &&& match parsed {
            Err(err) => {
                &&& !changed
                &&& after.poll_state == before.poll_state
                &&& after.is_readonly == before.is_readonly
                &&& after.new_share.value == share
                &&& after.new_share.error() == Some("Error parsing share: "@ + err@)
            },
            Ok(parsed) => match Self::refusal(before.poll_state->0@, before.poll_id, parsed) {
                Some(err) => {
                    &&& !changed
                    &&& after.poll_state matches Some(state)
                    &&& state@ == before.poll_state->0@
                    &&& after.is_readonly == before.is_readonly
                    &&& after.new_share.value == share
                    &&& after.new_share.error() == Some("Error verifying share: "@ + err.text())
                },
                None => {
                    &&& changed
                    &&& after.poll_state matches Some(state)
                    &&& state@.created_at == before.poll_state->0@.created_at
                    &&& state@.spec == before.poll_state->0@.spec
                    &&& state@.shared_key == before.poll_state->0@.shared_key
                    &&& state@.participants == with_share(
                        before.poll_state->0@.participants,
                        parsed,
                        now,
                    )
                    &&& after.is_readonly == (state@.results() is Some)
                    &&& after.is_readonly == completed_by(
                        before.poll_state->0@.participants,
                        parsed.public_key,
                    )
                    &&& after.new_share.value@ == Seq::<char>::empty()
                    &&& after.new_share.error_message is None
                },
            },
        }
    }

    /// Takes in the tallier share that was entered as text: where it was read
    /// and passes its check, it is recorded and the entry is cleared; where it
    /// was not read or is refused, the text is kept with the reason. Once the
    /// poll is finished the page can no longer be written to. Says whether the
    /// poll has changed.
    pub fn set_share(
        &mut self,
        share: String,
        parsed: Result<TallierShare, String>,
        now: u64,
    ) -> (changed: bool)
        requires
            old(self).well_formed(),
            !old(self).is_readonly,
        ensures
            final(self).well_formed(),
            Self::share_set(*old(self), *final(self), share, parsed, now, changed),
    {
        let parsed_share = match parsed {
            Ok(share) => share,
            Err(err) => {
                self.new_share = ValidatedValue::refused(
                    share,
                    "Error parsing share: ",
                    err.as_str(),
                );
                return false;
            },
        };
        match &mut self.poll_state {
            Some(state) => {
                match state.insert_tallier_share(&self.poll_id, parsed_share, now) {
                    Err(err) => {
                        self.new_share = ValidatedValue::refused(
                            share,
                            "Error verifying share: ",
                            err.to_string().as_str(),
                        );
                        return false;
                    },
                    Ok(_) => {},
                }
                self.is_readonly = state.results().is_some();
            },
            None => {},
        }
        self.new_share = ValidatedValue::empty();
        true
    }

    /// Makes our tallier share with `our_keys` and records it, if we take part
    /// in the poll, have not submitted a share yet, and the share is not
    /// refused. `None` where there is no poll, we have no keys or we do not
    /// take part in the poll; the poll is to be stored otherwise. Once the
    /// poll is finished the page can no longer be written to.
    pub fn maybe_submit_our_share(&mut self, our_keys: Option<&Keypair>, now: u64) -> (submitted:
        Option<()>)
        requires
            old(self).well_formed(),
        ensures
            final(self).well_formed(),
            final(self).poll_id == old(self).poll_id,
            final(self).is_readonly == (old(self).is_readonly || (final(self).poll_state matches Some(
                state,
            ) && state@.results() is Some)),
            final(self).new_share == old(self).new_share,
            submitted is Some <==> (old(self).poll_state matches Some(state) && our_keys matches Some(
                keys,
            ) && state@.has_participant(keys.public_key())),
            final(self).poll_state is Some <==> old(self).poll_state is Some,
            final(self).poll_state matches Some(state) ==> {
                &&& state@.spec == old(self).poll_state->0@.spec
                &&& state@.shared_key == old(self).poll_state->0@.shared_key
                &&& state@.created_at == old(self).poll_state->0@.created_at
                &&& state@.participants.len() == old(self).poll_state->0@.participants.len()
                &&& state@.stage().index() >= old(self).poll_state->0@.stage().index()
            },
            submitted is None ==> (final(self).poll_state matches Some(state)
                ==> state@ == old(self).poll_state->0@),
    {
        let state = match &mut self.poll_state {
            Some(state) => state,
            None => {
                return None;
            },
        };
        let our_keys = match our_keys {
            Some(keys) => keys,
            None => {
                return None;
            },
        };
        let place = match state.position(our_keys.public()) {
            Some(place) => place,
            None => {
                return None;
            },
        };
        if state.participants()[place].tallier_share.is_none() && Self::is_tallying(state) {
            match TallierShare::new(our_keys, &self.poll_id, state) {
                Some(share) => {
                    // A share that is refused is not recorded.
                    let _ = state.insert_tallier_share(&self.poll_id, share, now);
                    if state.results().is_some() {
                        self.is_readonly = true;
                    }
                },
                None => {},
            }
        }
        Some(())
    }

    /// Takes `message` in at the time `now` and says what is to be done next.
    pub fn update(&mut self, message: TallyingMessage, now: u64) -> (action: TallyingAction)
        requires
            old(self).well_formed(),
            old(self).accepts(message),
        ensures
            final(self).well_formed(),
            final(self).poll_id == old(self).poll_id,
            match message {
                TallyingMessage::ShareSet(share, parsed) => exists|changed: bool| #[trigger]
                    Self::share_set(*old(self), *final(self), share, parsed, now, changed) && action
                        == (if changed {
                        TallyingAction::Store
                    } else {
                        TallyingAction::Render
                    }),
                TallyingMessage::ExportRequested(idx) => {
                    &&& action == (if old(self).poll_state matches Some(state) && idx
                        < state@.participants.len() && state@.participants[idx as int].tallier_share
                        is Some {
                        TallyingAction::Export(idx)
                    } else {
                        TallyingAction::Nothing
                    })
                    &&& *final(self) == *old(self)
                },
                TallyingMessage::SecretUpdated(our_keys) => {
                    &&& action == (if old(self).poll_state matches Some(state) && our_keys matches Some(
                        keys,
                    ) && state@.has_participant(keys.public_key()) {
                        TallyingAction::Store
                    } else {
                        TallyingAction::Nothing
                    })
                    &&& final(self).is_readonly == (old(self).is_readonly || (
                    final(self).poll_state matches Some(state) && state@.results() is Some))
                    &&& final(self).new_share == old(self).new_share
                    &&& action == TallyingAction::Nothing ==> (final(self).poll_state matches Some(
                        state,
                    ) ==> state@ == old(self).poll_state->0@)
                },
            },
    {
        match message {
            TallyingMessage::ShareSet(share, parsed) => {
                if self.set_share(share, parsed, now) {
                    return TallyingAction::Store;
                }
            },
            TallyingMessage::ExportRequested(idx) => {
                return if self.has_share(idx) {
                    TallyingAction::Export(idx)
                } else {
                    TallyingAction::Nothing
                };
            },
            TallyingMessage::SecretUpdated(our_keys) => {
                return match self.maybe_submit_our_share(our_keys.as_ref(), now) {
                    Some(_) => TallyingAction::Store,
                    None => TallyingAction::Nothing,
                };
            },
        }
        TallyingAction::Render
    }
}

} // verus!

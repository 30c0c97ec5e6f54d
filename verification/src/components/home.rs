//! Home page: what the page decides when a poll is entered as text or the
//! removal of a poll is asked for.

use crate::components::common::{PendingRemovals, RemovalMessage, ValidatedValue};
use crate::encoding::sha256_digest;
use crate::poll::{ExportedPoll, ImportError, PollId, PollState, PollStateView};
use vstd::prelude::*;
use vstd::utf8::encode_utf8;

verus! {

pub enum HomeMessage {
    /// A poll was entered as text, and its parts were read or the text was
    /// refused with the given reason.
    PollSet(String, Result<ExportedPoll, String>),
    ExportRequested(PollId),
    Removal(RemovalMessage<PollId>),
}

/// What is to be done once the page has taken a message in.
#[derive(Debug, PartialEq, Eq)]
pub enum HomeAction {
    /// The page is to be shown again.
    Render,
    /// The poll is to be stored under the ID, and the page shown again.
    Store(PollId, PollState),
    /// The poll with the ID is to be removed from the store, and the page
    /// shown again.
    Remove(PollId),
    /// The poll with the ID is to be handed over for export, if it is stored.
    Export(PollId),
}

/// Home page component.
#[derive(Debug)]
pub struct Home {
    pub new_poll: ValidatedValue<String>,
    pub pending_removals: PendingRemovals,
}

impl Home {
    pub fn create() -> (page: Self)
        ensures
            page.new_poll.value@ == Seq::<char>::empty(),
            page.new_poll.error_message is None,
            page.pending_removals@ == Set::<Seq<u8>>::empty(),
    {
        Home { new_poll: ValidatedValue::empty(), pending_removals: PendingRemovals::new() }
    }

    /// What [`Home::set_poll`] makes of the page `before`: the page `after`,
    /// and the poll that is to be stored, if the text is one.
    pub open spec fn poll_set(
        before: Home,
        after: Home,
        poll: String,
        parsed: Result<ExportedPoll, String>,
        imported: Option<(PollId, PollState)>,
    ) -> bool {
        &&& after.pending_removals == before.pending_removals
        &&& match parsed {
            Err(err) => {
                &&& imported is None
                &&& after.new_poll.value == poll
                &&& after.new_poll.error() == Some("Error parsing poll: "@ + err@)
            },
            Ok(parts) => exists|id: PollId|
                id@ == sha256_digest(encode_utf8(parts@.spec.canonical_json())) && match (
                #[trigger] parts@.imported(id)) {
                    Err(err) => {
                        &&& imported is None
                        &&& after.new_poll.value == poll
                        &&& after.new_poll.error() == Some("Error validating poll: "@ + err.text())
                    },
                    Ok(view) => {
                        &&& imported matches Some((imported_id, state))
                        &&& imported_id == id
                        &&& state@ == view
                        &&& state@.well_formed()
                        &&& after.new_poll.value@ == Seq::<char>::empty()
                        &&& after.new_poll.error_message is None
                    },
                },
        }
    }

    /// Takes in the poll that was entered as text: where its parts were read
    /// and are taken in as a poll, the poll is handed back to be stored and
    /// the entry is cleared; where the text was not read or the parts are
    /// refused, the text is kept with the reason.
    pub fn set_poll(&mut self, poll: String, parsed: Result<ExportedPoll, String>) -> (imported:
        Option<(PollId, PollState)>)
        ensures
            Self::poll_set(*old(self), *final(self), poll, parsed, imported),
    {
        let parsed_poll = match parsed {
            Ok(poll) => poll,
            Err(err) => {
                self.new_poll = ValidatedValue::refused(poll, "Error parsing poll: ", err.as_str());
                return None;
            },
        };
        match PollState::import(parsed_poll) {
            Ok((poll_id, imported_poll)) => {
                self.new_poll = ValidatedValue::empty();
                assert(parsed_poll@.imported(poll_id) == Ok::<PollStateView, ImportError>(
                    imported_poll@,
                ));
                Some((poll_id, imported_poll))
            },
            Err(err) => {
                self.new_poll = ValidatedValue::refused(
                    poll,
                    "Error validating poll: ",
                    err.to_string().as_str(),
                );
                None
            },
        }
    }

    /// Takes `message` in and says what is to be done next.
    pub fn update(&mut self, message: HomeMessage) -> (action: HomeAction)
        ensures
            match message {
                HomeMessage::PollSet(poll, parsed) => exists|imported: Option<(PollId, PollState)>|
                    #[trigger] Self::poll_set(*old(self), *final(self), poll, parsed, imported)
                        && action == (match imported {
                        Some((id, state)) => HomeAction::Store(id, state),
                        None => HomeAction::Render,
                    }),
                HomeMessage::Removal(RemovalMessage::Requested(id)) => {
                    &&& action == HomeAction::Render
                    &&& final(self).pending_removals@ == old(self).pending_removals@.insert(id@)
                    &&& final(self).new_poll == old(self).new_poll
                },
                HomeMessage::Removal(RemovalMessage::Confirmed(id)) => {
                    &&& action == HomeAction::Remove(id)
                    &&& final(self).pending_removals@ == old(self).pending_removals@.remove(id@)
                    &&& final(self).new_poll == old(self).new_poll
                },
                HomeMessage::Removal(RemovalMessage::Cancelled(id)) => {
                    &&& action == HomeAction::Render
                    &&& final(self).pending_removals@ == old(self).pending_removals@.remove(id@)
                    &&& final(self).new_poll == old(self).new_poll
                },
                HomeMessage::ExportRequested(id) => {
                    &&& action == HomeAction::Export(id)
                    &&& *final(self) == *old(self)
                },
            },
    {
        match message {
            HomeMessage::PollSet(poll, parsed) => {
                match self.set_poll(poll, parsed) {
                    Some((id, state)) => {
                        return HomeAction::Store(id, state);
                    },
                    None => {},
                }
            },
            HomeMessage::Removal(RemovalMessage::Requested(id)) => {
                self.pending_removals.insert(id.0);
            },
            HomeMessage::Removal(RemovalMessage::Confirmed(id)) => {
                self.pending_removals.remove(&id.0);
                return HomeAction::Remove(id);
            },
            HomeMessage::Removal(RemovalMessage::Cancelled(id)) => {
                self.pending_removals.remove(&id.0);
            },
            HomeMessage::ExportRequested(id) => {
                return HomeAction::Export(id);
            },
        }
        HomeAction::Render
    }
}

} // verus!

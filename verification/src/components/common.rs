//! What the pages of the application have in common: values with their
//! errors, the steps of a removal, and the pages that a poll is worked on.

use crate::encoding::bytes_equal;
use crate::poll::{PollId, PollStage};
use vstd::prelude::*;
use vstd::string::*;

verus! {

/// Value together with validation errors.
#[derive(Debug, Clone, PartialEq, Eq)]
pub struct ValidatedValue<T> {
    pub value: T,
    pub error_message: Option<String>,
}

/// The text of an error message, if there is one.
pub open spec fn message_text(message: Option<String>) -> Option<Seq<char>> {
    match message {
        Some(message) => Some(message@),
        None => None,
    }
}

impl<T> ValidatedValue<T> {
    /// A value of which nothing is known to be wrong.
    pub fn unvalidated(value: T) -> (validated: Self)
        ensures
            validated.value == value,
            validated.error_message is None,
    {
        ValidatedValue { value, error_message: None }
    }

    /// The error of the value as text, if it has one.
    pub open spec fn error(&self) -> Option<Seq<char>> {
        message_text(self.error_message)
    }
}

impl ValidatedValue<String> {
    /// The empty text, of which nothing is known to be wrong.
    pub fn empty() -> (validated: Self)
        ensures
            validated.value@ == Seq::<char>::empty(),
            validated.error_message is None,
    {
        ValidatedValue { value: String::new(), error_message: None }
    }

    /// The text `value` with the error that says what went wrong, `what`, and
    /// why, `reason`.
    pub fn refused(value: String, what: &str, reason: &str) -> (validated: Self)
        ensures
            validated.value == value,
            validated.error() == Some(what@ + reason@),
    {
        let mut message = String::from_str(what);
        message.append(reason);
        ValidatedValue { value, error_message: Some(message) }
    }
}

/// Shared messages for the removal flow (request, then cancellation or confirmation).
#[derive(Debug, Clone, Copy, PartialEq, Eq)]
pub enum RemovalMessage<T> {
    Requested(T),
    Confirmed(T),
    Cancelled(T),
}

/// The items, each named by 32 bytes, of which the removal was requested and
/// neither confirmed nor cancelled yet.
#[derive(Debug, Clone, PartialEq, Eq)]
pub struct PendingRemovals {
    items: Vec<[u8; 32]>,
}

impl View for PendingRemovals {
    type V = Set<Seq<u8>>;

    closed spec fn view(&self) -> Set<Seq<u8>> {
        Set::new(|item: Seq<u8>| exists|i: int| 0 <= i < self.items.len() && self.items[i]@ == item)
    }
}

impl PendingRemovals {
    /// No removal is pending.
    pub fn new() -> (pending: Self)
        ensures
            pending@ == Set::<Seq<u8>>::empty(),
    {
        let pending = PendingRemovals { items: Vec::new() };
        assert(pending@ =~= Set::<Seq<u8>>::empty());
        pending
    }

    /// Whether the removal of `item` is pending.
    pub fn contains(&self, item: &[u8; 32]) -> (pending: bool)
        ensures
            pending == self@.contains(item@),
    {
        let mut i: usize = 0;
        while i < self.items.len()
            invariant
                i <= self.items.len(),
                forall|k: int| 0 <= k < i ==> (#[trigger] self.items[k])@ != item@,
            decreases self.items.len() - i,
        {
            if bytes_equal(self.items[i].as_slice(), item.as_slice()) {
                return true;
            }
            i += 1;
        }
        false
    }

    /// Takes the request to remove `item` in.
    pub fn insert(&mut self, item: [u8; 32])
        ensures
            final(self)@ == old(self)@.insert(item@),
    {
        if !self.contains(&item) {
            self.items.push(item);
            assert(self.items@.drop_last() =~= old(self).items@);
            assert forall|other: Seq<u8>| self@.contains(other) == old(self)@.insert(
                item@,
            ).contains(other) by {
                if old(self)@.contains(other) {
                    let i = choose|i: int|
                        0 <= i < old(self).items.len() && old(self).items[i]@ == other;
                    assert(self.items[i]@ == other);
                }
                if other == item@ {
                    assert(self.items[self.items.len() - 1]@ == other);
                }
            }
            assert(self@ =~= old(self)@.insert(item@));
        } else {
            assert(self@ =~= old(self)@.insert(item@));
        }
    }

    /// Forgets the request to remove `item`, which was confirmed or cancelled.
    pub fn remove(&mut self, item: &[u8; 32])
        ensures
            final(self)@ == old(self)@.remove(item@),
    {
        let ghost before = self.items@;
        let mut kept: Vec<[u8; 32]> = Vec::new();
        let mut i: usize = 0;
        while i < self.items.len()
            invariant
                i <= self.items.len(),
                self.items@ == before,
                forall|k: int| 0 <= k < kept.len() ==> (#[trigger] kept[k])@ != item@,
                forall|k: int|
                    0 <= k < kept.len() ==> exists|j: int|
                        0 <= j < i && before[j]@ == (#[trigger] kept[k])@,
                forall|j: int|
                    0 <= j < i && (#[trigger] before[j])@ != item@ ==> exists|k: int|
                        0 <= k < kept.len() && kept[k]@ == before[j]@,
            decreases self.items.len() - i,
        {
            if !bytes_equal(self.items[i].as_slice(), item.as_slice()) {
                let ghost earlier = kept@;
                kept.push(self.items[i]);
                assert forall|j: int| 0 <= j < i + 1 && (#[trigger] before[j])@
                    != item@ implies exists|k: int| 0 <= k < kept.len() && kept[k]@ == before[j]@ by {
                    if j < i {
                        let k = choose|k: int| 0 <= k < earlier.len() && earlier[k]@ == before[j]@;
                        assert(kept[k]@ == before[j]@);
                    } else {
                        assert(kept[kept.len() - 1]@ == before[j]@);
                    }
                }
                assert forall|k: int| 0 <= k < kept.len() implies exists|j: int|
                    0 <= j < i + 1 && before[j]@ == (#[trigger] kept[k])@ by {
                    if k < earlier.len() {
                        let j = choose|j: int| 0 <= j < i && before[j]@ == earlier[k]@;
                        assert(before[j]@ == kept[k]@);
                    } else {
                        assert(before[i as int]@ == kept[k]@);
                    }
                }
            }
            i += 1;
        }
        self.items = kept;
        assert forall|other: Seq<u8>| self@.contains(other) == old(self)@.remove(item@).contains(
            other,
        ) by {
            if self@.contains(other) {
                let k = choose|k: int| 0 <= k < self.items.len() && self.items[k]@ == other;
                let j = choose|j: int| 0 <= j < before.len() && before[j]@ == self.items[k]@;
                assert(old(self).items[j]@ == other);
            }
            if old(self)@.remove(item@).contains(other) {
                let j = choose|j: int| 0 <= j < before.len() && old(self).items[j]@ == other;
                assert(before[j]@ != item@);
            }
        }
        assert(self@ =~= old(self)@.remove(item@));
    }
}

/// The pages of the application.
#[derive(Debug, Clone, Copy, PartialEq, Eq)]
pub enum Route {
    Home,
    About,
    Implementation,
    NewPoll,
    PollParticipants { id: PollId },
    Voting { id: PollId },
    Tallying { id: PollId },
    NotFound,
}

impl Route {
    /// The page on which the poll `id` is worked on at the stage `stage`. The
    /// results of a finished poll are shown where its votes were tallied.
    pub fn for_poll(id: PollId, stage: PollStage) -> (route: Self)
        ensures
            route == (match stage {
                PollStage::Participants { .. } => Route::PollParticipants { id },
                PollStage::Voting { .. } => Route::Voting { id },
                PollStage::Tallying { .. } => Route::Tallying { id },
                PollStage::Finished => Route::Tallying { id },
            }),
    {
        match stage {
            PollStage::Participants { .. } => Route::PollParticipants { id },
            PollStage::Voting { .. } => Route::Voting { id },
            PollStage::Tallying { .. } | PollStage::Finished => Route::Tallying { id },
        }
    }
}

} // verus!

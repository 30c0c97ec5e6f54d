//! Accumulation of the votes of a poll and their decryption from the shares of
//! all participants.
//!
//! The votes for an option are added up as ciphertexts. Each participant's
//! share for the option removes that participant's part of the blinding from
//! the sum; once all shares are removed, what is left is the generator of the
//! group multiplied by the number of votes, which is at most the number of
//! participants and is found by trying each of these numbers.

use crate::group::{
    add_ciphertexts, blinded_element, blinded_element_of, ciphertext_sum, discrete_log,
    discrete_log_of, element_without_share, subtract_share, texts, zero_ciphertext, Ciphertext,
    ZERO_CIPHERTEXT,
};
use crate::poll::participant::{Participant, ShareWithProof, TallierShare};
use vstd::prelude::*;

verus! {

/// The ciphertext that the vote of `participant` holds for the option
/// `option`, if the participant has voted and the vote has one.
pub open spec fn choice_for(participant: Participant, option: int) -> Option<Seq<char>> {
    match participant.vote {
        Some(vote) => if 0 <= option < vote.inner.choice.inner().choices.len() {
            Some(vote.inner.choice.inner().choices[option]@)
        } else {
            None
        },
        None => None,
    }
}

/// The sum of the ciphertexts that the votes of `participants` hold for the
/// option `option`, added to the ciphertext of zero from the first participant
/// to the last: `None` where a sum cannot be formed.
pub open spec fn cumulative_choice(participants: Seq<Participant>, option: int) -> Option<
    Seq<char>,
>
    decreases participants.len(),
{
    if participants.len() == 0 {
        Some(ZERO_CIPHERTEXT@)
    } else {
        match cumulative_choice(participants.drop_last(), option) {
            None => None,
            Some(sum) => match choice_for(participants.last(), option) {
                Some(choice) => ciphertext_sum(sum, choice),
                None => Some(sum),
            },
        }
    }
}

/// The sums of [`cumulative_choice`] for the first `options` options: `None`
/// where one of them cannot be formed.
pub open spec fn cumulative_choices(participants: Seq<Participant>, options: nat) -> Option<
    Seq<Seq<char>>,
>
    decreases options,
{
    if options == 0 {
        Some(Seq::empty())
    } else {
        match cumulative_choices(participants, (options - 1) as nat) {
            None => None,
            Some(sums) => match cumulative_choice(participants, options - 1) {
                None => None,
                Some(sum) => Some(sums.push(sum)),
            },
        }
    }
}

/// The shares that count for each participant: those of `pending` for the
/// participant with its public key, and for every other participant the shares
/// that the participant has submitted, if any.
pub open spec fn share_lists(participants: Seq<Participant>, pending: Option<TallierShare>) -> Seq<
    Option<Seq<ShareWithProof>>,
> {
    Seq::new(
        participants.len(),
        |k: int|
            match pending {
                Some(pending) if participants[k].key()@ == pending.public_key@ => Some(
                    pending.shares@,
                ),
                _ => match participants[k].tallier_share {
                    Some(submitted) => Some(submitted.inner.shares@),
                    None => None,
                },
            },
    )
}

/// The share for the option `option` in a participant's list of shares, if
/// there is a list and it has one.
pub open spec fn share_for(shares: Option<Seq<ShareWithProof>>, option: int) -> Option<Seq<char>> {
    match shares {
        Some(shares) => if 0 <= option < shares.len() {
            Some(shares[option].share@)
        } else {
            None
        },
        None => None,
    }
}

/// What is left of `element` once each participant's share for the option
/// `option` is removed from it, from the first participant to the last: `None`
/// where a share cannot be removed.
pub open spec fn remaining_element(
    lists: Seq<Option<Seq<ShareWithProof>>>,
    element: Seq<u8>,
    option: int,
) -> Option<Seq<u8>>
    decreases lists.len(),
{
    if lists.len() == 0 {
        Some(element)
    } else {
        match remaining_element(lists.drop_last(), element, option) {
            None => None,
            Some(rest) => match share_for(lists.last(), option) {
                Some(share) => element_without_share(rest, share),
                None => Some(rest),
            },
        }
    }
}

/// The number of votes for the option `option` that the shares in `lists`
/// decrypt: `None` where the votes cannot be added up, a share cannot be
/// removed, or what is left stands for no number of votes that the
/// participants can have cast.
pub open spec fn decrypted_count(
    participants: Seq<Participant>,
    lists: Seq<Option<Seq<ShareWithProof>>>,
    option: int,
) -> Option<u64> {
    match cumulative_choice(participants, option) {
        None => None,
        Some(sum) => match blinded_element(sum) {
            None => None,
            Some(element) => match remaining_element(lists, element, option) {
                None => None,
                Some(rest) => discrete_log(rest, participants.len() as u64),
            },
        },
    }
}

/// The numbers of votes for the first `options` options: `None` where one of
/// them cannot be decrypted.
pub open spec fn tally(
    participants: Seq<Participant>,
    lists: Seq<Option<Seq<ShareWithProof>>>,
    options: nat,
) -> Option<Seq<u64>>
    decreases options,
{
    if options == 0 {
        Some(Seq::empty())
    } else {
        match tally(participants, lists, (options - 1) as nat) {
            None => None,
            Some(counts) => match decrypted_count(participants, lists, options - 1) {
                None => None,
                Some(count) => Some(counts.push(count)),
            },
        }
    }
}

/// A sum that cannot be formed for the first participants cannot be formed for
/// all of them.
pub proof fn lemma_cumulative_choice_fails_on(
    participants: Seq<Participant>,
    upto: int,
    option: int,
)
    requires
        0 <= upto <= participants.len(),
        cumulative_choice(participants.take(upto), option) is None,
    ensures
        cumulative_choice(participants, option) is None,
    decreases participants.len() - upto,
{
    if upto < participants.len() {
        assert(participants.take(upto + 1).drop_last() =~= participants.take(upto));
        lemma_cumulative_choice_fails_on(participants, upto + 1, option);
    } else {
        assert(participants.take(upto) =~= participants);
    }
}

/// Sums that cannot be formed for the first options cannot be formed for more
/// options; sums that can be formed are one for each option.
pub proof fn lemma_cumulative_choices(participants: Seq<Participant>, upto: nat, options: nat)
    requires
        upto <= options,
    ensures
        cumulative_choices(participants, upto) is None ==> cumulative_choices(
            participants,
            options,
        ) is None,
        cumulative_choices(participants, options) matches Some(sums) ==> sums.len() == options
            && forall|j: int|
            0 <= j < options ==> cumulative_choice(participants, j) == Some(#[trigger] sums[j]),
    decreases options,
{
    if options > 0 {
        if upto < options {
            lemma_cumulative_choices(participants, upto, (options - 1) as nat);
        } else {
            lemma_cumulative_choices(participants, (upto - 1) as nat, (options - 1) as nat);
        }
    }
}

/// What cannot be left of an element once the first shares are removed cannot
/// be left once all are.
pub proof fn lemma_remaining_element_fails_on(
    lists: Seq<Option<Seq<ShareWithProof>>>,
    upto: int,
    element: Seq<u8>,
    option: int,
)
    requires
        0 <= upto <= lists.len(),
        remaining_element(lists.take(upto), element, option) is None,
    ensures
        remaining_element(lists, element, option) is None,
    decreases lists.len() - upto,
{
    if upto < lists.len() {
        assert(lists.take(upto + 1).drop_last() =~= lists.take(upto));
        lemma_remaining_element_fails_on(lists, upto + 1, element, option);
    } else {
        assert(lists.take(upto) =~= lists);
    }
}

/// A tally that fails for the first options fails for more options; a tally
/// that succeeds has one count for each option.
pub proof fn lemma_tally(
    participants: Seq<Participant>,
    lists: Seq<Option<Seq<ShareWithProof>>>,
    upto: nat,
    options: nat,
)
    requires
        upto <= options,
    ensures
        tally(participants, lists, upto) is None ==> tally(participants, lists, options) is None,
        tally(participants, lists, options) matches Some(counts) ==> counts.len() == options
            && forall|j: int|
            0 <= j < options ==> decrypted_count(participants, lists, j) == Some(
                #[trigger] counts[j],
            ),
    decreases options,
{
    if options > 0 {
        if upto < options {
            lemma_tally(participants, lists, upto, (options - 1) as nat);
        } else {
            lemma_tally(participants, lists, (upto - 1) as nat, (options - 1) as nat);
        }
    }
}

/// The sums of the votes depend on the votes alone.
pub proof fn lemma_cumulative_choice_same_votes(
    a: Seq<Participant>,
    b: Seq<Participant>,
    option: int,
)
    requires
        a.len() == b.len(),
        forall|k: int| 0 <= k < a.len() ==> (#[trigger] a[k]).vote == b[k].vote,
    ensures
        cumulative_choice(a, option) == cumulative_choice(b, option),
    decreases a.len(),
{
    if a.len() > 0 {
        assert forall|k: int| 0 <= k < a.drop_last().len() implies (#[trigger] a.drop_last()[k]).vote
            == b.drop_last()[k].vote by {
            assert(a.drop_last()[k] == a[k]);
        }
        lemma_cumulative_choice_same_votes(a.drop_last(), b.drop_last(), option);
        assert(a.last().vote == a[a.len() - 1].vote);
    }
}

/// The tally depends on the votes and on the shares that count alone.
pub proof fn lemma_tally_same_votes(
    a: Seq<Participant>,
    b: Seq<Participant>,
    lists: Seq<Option<Seq<ShareWithProof>>>,
    options: nat,
)
    requires
        a.len() == b.len(),
        forall|k: int| 0 <= k < a.len() ==> (#[trigger] a[k]).vote == b[k].vote,
    ensures
        tally(a, lists, options) == tally(b, lists, options),
        cumulative_choices(a, options) == cumulative_choices(b, options),
    decreases options,
{
    if options > 0 {
        lemma_tally_same_votes(a, b, lists, (options - 1) as nat);
        lemma_cumulative_choice_same_votes(a, b, options - 1);
    }
}

/// Adds up, for one option, the ciphertexts of the votes that `participants`
/// hold.
pub fn cumulative_choice_of(participants: &Vec<Participant>, option: usize) -> (sum: Option<
    Ciphertext,
>)
    ensures
        match sum {
            Some(sum) => cumulative_choice(participants@, option as int) == Some(sum@),
            None => cumulative_choice(participants@, option as int) is None,
        },
{
    let mut sum = zero_ciphertext();
    let mut k: usize = 0;
    assert(participants@.take(0).len() == 0);
    while k < participants.len()
        invariant
            k <= participants.len(),
            cumulative_choice(participants@.take(k as int), option as int) == Some(sum@),
        decreases participants.len() - k,
    {
        assert(participants@.take(k + 1).drop_last() =~= participants@.take(k as int));
        assert(participants@.take(k + 1).last() == participants@[k as int]);
        match &participants[k].vote {
            Some(vote) => {
                let choices = vote.choices();
                if option < choices.len() {
                    match add_ciphertexts(&sum, &choices[option]) {
                        Some(next) => {
                            sum = next;
                        },
                        None => {
                            proof {
                                lemma_cumulative_choice_fails_on(
                                    participants@,
                                    k + 1,
                                    option as int,
                                );
                            }
                            return None;
                        },
                    }
                }
            },
            None => {},
        }
        k += 1;
    }
    assert(participants@.take(k as int) =~= participants@);
    Some(sum)
}

/// Adds up the votes that `participants` hold, option by option.
pub fn cumulative_choices_of(participants: &Vec<Participant>, options: usize) -> (sums: Option<
    Vec<Ciphertext>,
>)
    ensures
        match sums {
            Some(sums) => cumulative_choices(participants@, options as nat) == Some(texts(sums@))
                && sums.len() == options,
            None => cumulative_choices(participants@, options as nat) is None,
        },
{
    let mut sums: Vec<Ciphertext> = Vec::new();
    let mut option: usize = 0;
    while option < options
        invariant
            option <= options,
            sums.len() == option,
            cumulative_choices(participants@, option as nat) == Some(texts(sums@)),
        decreases options - option,
    {
        match cumulative_choice_of(participants, option) {
            Some(sum) => {
                let ghost before = sums@;
                sums.push(sum);
                assert(texts(sums@) =~= texts(before).push(sum@));
            },
            None => {
                proof {
                    lemma_cumulative_choices(
                        participants@,
                        (option + 1) as nat,
                        options as nat,
                    );
                }
                return None;
            },
        }
        option += 1;
    }
    Some(sums)
}

/// The shares that count for the participant at the place `k`.
fn shares_at<'a>(
    participants: &'a Vec<Participant>,
    pending: Option<&'a TallierShare>,
    k: usize,
) -> (shares: Option<&'a Vec<ShareWithProof>>)
    requires
        k < participants.len(),
    ensures
        match shares {
            Some(shares) => share_lists(
                participants@,
                match pending {
                    Some(pending) => Some(*pending),
                    None => None,
                },
            )[k as int] == Some(shares@),
            None => share_lists(
                participants@,
                match pending {
                    Some(pending) => Some(*pending),
                    None => None,
                },
            )[k as int] is None,
        },
{
    match pending {
        Some(pending) => {
            if participants[k].public_key().same_as(&pending.public_key) {
                return Some(&pending.shares);
            }
        },
        None => {},
    }
    match &participants[k].tallier_share {
        Some(submitted) => Some(&submitted.inner.shares),
        None => None,
    }
}

/// Decrypts the number of votes for one option from its sum of ciphertexts.
fn decrypt_count(
    participants: &Vec<Participant>,
    pending: Option<&TallierShare>,
    sum: &Ciphertext,
    option: usize,
) -> (count: Option<u64>)
    requires
        cumulative_choice(participants@, option as int) == Some(sum@),
    ensures
        count == decrypted_count(
            participants@,
            share_lists(
                participants@,
                match pending {
                    Some(pending) => Some(*pending),
                    None => None,
                },
            ),
            option as int,
        ),
        count matches Some(count) ==> count <= participants.len(),
{
    let ghost lists = share_lists(
        participants@,
        match pending {
            Some(pending) => Some(*pending),
            None => None,
        },
    );
    let mut element: [u8; 32] = match blinded_element_of(sum) {
        Some(element) => element,
        None => {
            return None;
        },
    };
    let ghost start = element@;
    let mut k: usize = 0;
    assert(lists.take(0).len() == 0);
    while k < participants.len()
        invariant
            k <= participants.len(),
            lists.len() == participants.len(),
            lists == share_lists(
                participants@,
                match pending {
                    Some(pending) => Some(*pending),
                    None => None,
                },
            ),
            remaining_element(lists.take(k as int), start, option as int) == Some(element@),
            cumulative_choice(participants@, option as int) == Some(sum@),
            blinded_element(sum@) == Some(start),
        decreases participants.len() - k,
    {
        assert(lists.take(k + 1).drop_last() =~= lists.take(k as int));
        assert(lists.take(k + 1).last() == lists[k as int]);
        match shares_at(participants, pending, k) {
            Some(shares) => {
                if option < shares.len() {
                    match subtract_share(&element, &shares[option].share) {
                        Some(rest) => {
                            element = rest;
                        },
                        None => {
                            proof {
                                lemma_remaining_element_fails_on(
                                    lists,
                                    k + 1,
                                    start,
                                    option as int,
                                );
                            }
                            return None;
                        },
                    }
                }
            },
            None => {},
        }
        k += 1;
    }
    assert(lists.take(k as int) =~= lists);
    discrete_log_of(&element, participants.len() as u64)
}

/// Decrypts the votes that `participants` hold from the shares that they have
/// submitted, with the shares of `pending`, if given, in the place of those of
/// the participant with its public key.
pub fn decrypt_tally(
    participants: &Vec<Participant>,
    options: usize,
    pending: Option<&TallierShare>,
) -> (counts: Option<Vec<u64>>)
    ensures
        match counts {
            Some(counts) => tally(
                participants@,
                share_lists(
                    participants@,
                    match pending {
                        Some(pending) => Some(*pending),
                        None => None,
                    },
                ),
                options as nat,
            ) == Some(counts@) && forall|j: int|
                0 <= j < counts.len() ==> #[trigger] counts[j] <= participants.len(),
            None => tally(
                participants@,
                share_lists(
                    participants@,
                    match pending {
                        Some(pending) => Some(*pending),
                        None => None,
                    },
                ),
                options as nat,
            ) is None,
        },
{
    let ghost lists = share_lists(
        participants@,
        match pending {
            Some(pending) => Some(*pending),
            None => None,
        },
    );
    let mut counts: Vec<u64> = Vec::new();
    let mut option: usize = 0;
    while option < options
        invariant
            option <= options,
            lists == share_lists(
                participants@,
                match pending {
                    Some(pending) => Some(*pending),
                    None => None,
                },
            ),
            tally(participants@, lists, option as nat) == Some(counts@),
            forall|j: int| 0 <= j < counts.len() ==> #[trigger] counts[j] <= participants.len(),
        decreases options - option,
    {
        let count = match cumulative_choice_of(participants, option) {
            Some(sum) => decrypt_count(participants, pending, &sum, option),
            None => None,
        };
        match count {
            Some(count) => {
                counts.push(count);
            },
            None => {
                proof {
                    lemma_tally(participants@, lists, (option + 1) as nat, options as nat);
                }
                return None;
            },
        }
        option += 1;
    }
    Some(counts)
}

} // verus!

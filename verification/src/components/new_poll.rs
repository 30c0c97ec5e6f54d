//! The form in which a new poll is specified: what each edit changes, and
//! which values the form refuses.

use crate::components::common::{message_text, ValidatedValue};
use crate::encoding::{append_decimal, decimal, text_equal};
use crate::poll::{PollSpec, PollType};
use vstd::prelude::*;
use vstd::string::*;
use vstd::utf8::encode_utf8;

verus! {

#[derive(Debug)]
pub enum NewPollMessage {
    TitleSet(String),
    DescriptionSet(String),
    TypeSet(PollType),
    OptionSet(usize, String),
    OptionRemoved(usize),
    OptionMoved { old_idx: usize, new_idx: usize },
    OptionAdded,
    /// The specification was entered as text, and read as a specification or
    /// refused with the given reason.
    SpecSet(String, Result<PollSpec, String>),
    SpecReset,
    ExportRequested,
    Done,
}

/// What is to be done once the form has taken a message in.
#[derive(Debug, PartialEq, Eq)]
pub enum NewPollAction {
    /// The form has changed and is to be shown again.
    Render,
    /// The specification is to be handed over for export.
    Export(PollSpec),
    /// The specification is final: a poll is to be opened for it.
    Done(PollSpec),
}

/// "New poll" page.
#[derive(Debug)]
pub struct NewPoll {
    pub title: ValidatedValue<String>,
    pub description: ValidatedValue<String>,
    pub poll_type: PollType,
    pub poll_options: Vec<ValidatedValue<String>>,
    pub nonce: u32,
    /// The `value` is `Some(_)` if there is a problem with parsing it; otherwise, the "Raw" tab
    /// renders the JSON presentation of the config.
    pub spec: ValidatedValue<Option<String>>,
}

/// Why `title` is refused as the title of a poll, if it is.
pub open spec fn title_error(title: Seq<char>) -> Option<Seq<char>> {
    if title.len() == 0 {
        Some("Title cannot be empty"@)
    } else if encode_utf8(title).len() > NewPoll::MAX_FIELD_LEN {
        Some("Title length cannot exceed 128 bytes"@)
    } else {
        None
    }
}

/// Why `description` is refused as the description of a poll, if it is.
pub open spec fn description_error(description: Seq<char>) -> Option<Seq<char>> {
    if encode_utf8(description).len() > NewPoll::MAX_DESCRIPTION_LEN {
        Some("Description length cannot exceed 1024 bytes"@)
    } else {
        None
    }
}

/// Why `option` is refused as the label of an option, if it is. That an option
/// is given twice is found separately.
pub open spec fn option_error(option: Seq<char>) -> Option<Seq<char>> {
    if option.len() == 0 {
        Some("Option title cannot be empty"@)
    } else if encode_utf8(option).len() > NewPoll::MAX_FIELD_LEN {
        Some("Option title length cannot exceed 128 bytes"@)
    } else {
        None
    }
}

/// Whether the option at the place `i` is given at another place as well.
pub open spec fn is_repeated(options: Seq<ValidatedValue<String>>, i: int) -> bool {
    exists|j: int|
        0 <= j < options.len() && j != i && (#[trigger] options[j]).value@ == options[i].value@
}

/// The error of an option after the options are compared with each other: an
/// option without error that is given twice gets the error that says so, an
/// option that has this error and is given once loses it, and any other error
/// stays.
pub open spec fn revalidated_error(error: Option<Seq<char>>, repeated: bool) -> Option<Seq<char>> {
    if repeated && error is None {
        Some("Option descriptions must be unique"@)
    } else if !repeated && error == Some("Option descriptions must be unique"@) {
        None
    } else {
        error
    }
}

/// Whether `after` is `before` with the errors that follow from comparing the
/// options with each other.
pub open spec fn revalidated(
    before: Seq<ValidatedValue<String>>,
    after: Seq<ValidatedValue<String>>,
) -> bool {
    &&& after.len() == before.len()
    &&& forall|i: int|
        0 <= i < before.len() ==> (#[trigger] after[i]).value == before[i].value && after[i].error()
            == revalidated_error(before[i].error(), is_repeated(before, i))
}

/// Whether no value in the form has an error.
pub open spec fn form_is_valid(form: NewPoll) -> bool {
    &&& form.title.error_message is None
    &&& form.description.error_message is None
    &&& form.spec.error_message is None
    &&& forall|i: int|
        0 <= i < form.poll_options.len() ==> (#[trigger] form.poll_options[i]).error_message is None
}

/// Whether `spec` is the specification that `form` holds: the values of the
/// form, whether or not they have errors.
pub open spec fn holds_spec(form: NewPoll, spec: PollSpec) -> bool {
    &&& spec.title == form.title.value
    &&& spec.description == form.description.value
    &&& spec.poll_type == form.poll_type
    &&& spec.nonce == form.nonce
    &&& spec.options.len() == form.poll_options.len()
    &&& forall|i: int|
        0 <= i < form.poll_options.len() ==> #[trigger] spec.options[i]
            == form.poll_options[i].value
}

/// Whether `after` is `before` once the text `spec_string` was entered as the
/// specification and was read as `parsed`. Where it was read, its parts are
/// the values of the form, each with the error that it has by itself, and the
/// options with the errors that follow from comparing them; where it was
/// refused, the text is kept with the reason and nothing else changes.
pub open spec fn spec_was_set(
    before: NewPoll,
    after: NewPoll,
    spec_string: String,
    parsed: Result<PollSpec, String>,
) -> bool {
    match parsed {
        Err(err) => {
            &&& after.spec.value == Some(spec_string)
            &&& after.spec.error() == Some("Error deserializing spec: "@ + err@)
            &&& after.title == before.title
            &&& after.description == before.description
            &&& after.poll_type == before.poll_type
            &&& after.nonce == before.nonce
            &&& after.poll_options == before.poll_options
        },
        Ok(spec) => {
            &&& after.spec.value is None
            &&& after.spec.error_message is None
            &&& after.title.value == spec.title
            &&& after.title.error() == title_error(spec.title@)
            &&& after.description.value == spec.description
            &&& after.description.error() == description_error(spec.description@)
            &&& after.poll_type == spec.poll_type
            &&& after.nonce == spec.nonce
            &&& exists|options: Seq<ValidatedValue<String>>| #[trigger]
                revalidated(options, after.poll_options@) && options.len() == spec.options.len()
                    && forall|i: int|
                    0 <= i < options.len() ==> (#[trigger] options[i]).value == spec.options[i]
                        && options[i].error() == option_error(spec.options[i]@)
        },
    }
}

/// Whether `after` is `before` with a new option as the last one: the option
/// is named after the number of options that there are with it, and the
/// options have the errors that follow from comparing them.
pub open spec fn option_was_added(
    before: Seq<ValidatedValue<String>>,
    after: Seq<ValidatedValue<String>>,
) -> bool {
    exists|added: ValidatedValue<String>| #[trigger]
        revalidated(before.push(added), after) && added.value@ == "Option #"@ + decimal(
            (before.len() + 1) as nat,
        ) && added.error() == option_error(added.value@)
}

/// Whether `after` is `before` with the text `description` as the option at
/// the place `idx`, and the options with the errors that follow from
/// comparing them.
pub open spec fn option_was_set(
    before: Seq<ValidatedValue<String>>,
    after: Seq<ValidatedValue<String>>,
    idx: int,
    description: String,
) -> bool {
    exists|set: ValidatedValue<String>| #[trigger]
        revalidated(before.update(idx, set), after) && set.value == description && set.error()
            == option_error(description@)
}

/// Whether two forms differ at most in their options.
pub open spec fn same_but_options(before: NewPoll, after: NewPoll) -> bool {
    &&& after.title == before.title
    &&& after.description == before.description
    &&& after.poll_type == before.poll_type
    &&& after.nonce == before.nonce
    &&& after.spec == before.spec
}

impl NewPoll {
    pub const MAX_FIELD_LEN: usize = 128;

    pub const MAX_DESCRIPTION_LEN: usize = 1_024;

    pub fn validate_title(title: &str) -> (error: Option<String>)
        ensures
            message_text(error) == title_error(title@),
    {
        if title.is_empty() {
            Some(String::from_str("Title cannot be empty"))
        } else if title.as_bytes().len() > Self::MAX_FIELD_LEN {
            Some(String::from_str("Title length cannot exceed 128 bytes"))
        } else {
            None
        }
    }

    pub fn validate_description(description: &str) -> (error: Option<String>)
        ensures
            message_text(error) == description_error(description@),
    {
        if description.as_bytes().len() > Self::MAX_DESCRIPTION_LEN {
            Some(String::from_str("Description length cannot exceed 1024 bytes"))
        } else {
            None
        }
    }

    pub fn validate_option(new_option: &str) -> (error: Option<String>)
        ensures
            message_text(error) == option_error(new_option@),
    {
        if new_option.is_empty() {
            Some(String::from_str("Option title cannot be empty"))
        } else if new_option.as_bytes().len() > Self::MAX_FIELD_LEN {
            Some(String::from_str("Option title length cannot exceed 128 bytes"))
        } else {
            // Option uniqueness is validated separately.
            None
        }
    }

    fn validated_title(title: String) -> (validated: ValidatedValue<String>)
        ensures
            validated.value == title,
            validated.error() == title_error(title@),
    {
        let error_message = Self::validate_title(title.as_str());
        ValidatedValue { value: title, error_message }
    }

    fn validated_description(description: String) -> (validated: ValidatedValue<String>)
        ensures
            validated.value == description,
            validated.error() == description_error(description@),
    {
        let error_message = Self::validate_description(description.as_str());
        ValidatedValue { value: description, error_message }
    }

    fn validated_option(description: String) -> (validated: ValidatedValue<String>)
        ensures
            validated.value == description,
            validated.error() == option_error(description@),
    {
        let error_message = Self::validate_option(description.as_str());
        ValidatedValue { value: description, error_message }
    }

    /// Whether the option at the place `i` is given at another place as well.
    fn option_is_repeated(&self, i: usize) -> (repeated: bool)
        requires
            i < self.poll_options.len(),
        ensures
            repeated == is_repeated(self.poll_options@, i as int),
    {
        let mut j: usize = 0;
        while j < self.poll_options.len()
            invariant
                j <= self.poll_options.len(),
                i < self.poll_options.len(),
                forall|k: int|
                    0 <= k < j && k != i ==> (#[trigger] self.poll_options[k]).value@
                        != self.poll_options[i as int].value@,
            decreases self.poll_options.len() - j,
        {
            if i != j && text_equal(
                self.poll_options[i].value.as_str(),
                self.poll_options[j].value.as_str(),
            ) {
                return true;
            }
            j += 1;
        }
        false
    }

    /// Compares the options with each other and marks those that are given
    /// twice.
    pub fn revalidate_options(&mut self)
        ensures
            revalidated(old(self).poll_options@, final(self).poll_options@),
            final(self).title == old(self).title,
            final(self).description == old(self).description,
            final(self).poll_type == old(self).poll_type,
            final(self).nonce == old(self).nonce,
            final(self).spec == old(self).spec,
    {
        let mut non_unique: Vec<bool> = Vec::new();
        let mut i: usize = 0;
        while i < self.poll_options.len()
            invariant
                i <= self.poll_options.len(),
                non_unique.len() == i,
                forall|k: int|
                    0 <= k < i ==> non_unique[k] == is_repeated(self.poll_options@, k),
            decreases self.poll_options.len() - i,
        {
            let repeated = self.option_is_repeated(i);
            non_unique.push(repeated);
            i += 1;
        }
        let ghost before = self.poll_options@;
        let mut i: usize = 0;
        while i < self.poll_options.len()
            invariant
                i <= self.poll_options.len(),
                self.poll_options.len() == before.len(),
                non_unique.len() == before.len(),
                forall|k: int| 0 <= k < before.len() ==> non_unique[k] == is_repeated(before, k),
                forall|k: int|
                    0 <= k < i ==> (#[trigger] self.poll_options[k]).value == before[k].value
                        && self.poll_options[k].error() == revalidated_error(
                        before[k].error(),
                        is_repeated(before, k),
                    ),
                forall|k: int| i <= k < before.len() ==> self.poll_options[k] == before[k],
                self.title == old(self).title,
                self.description == old(self).description,
                self.poll_type == old(self).poll_type,
                self.nonce == old(self).nonce,
                self.spec == old(self).spec,
            decreases self.poll_options.len() - i,
        {
            let has_non_unique_error = match &self.poll_options[i].error_message {
                Some(message) => text_equal(message.as_str(), "Option descriptions must be unique"),
                None => false,
            };
            if non_unique[i] && self.poll_options[i].error_message.is_none() {
                self.poll_options[i].error_message = Some(
                    String::from_str("Option descriptions must be unique"),
                );
            } else if !non_unique[i] && has_non_unique_error {
                self.poll_options[i].error_message = None;
            }
            i += 1;
        }
    }

    pub fn is_valid(&self) -> (valid: bool)
        ensures
            valid == form_is_valid(*self),
    {
        if self.title.error_message.is_some() || self.description.error_message.is_some()
            || self.spec.error_message.is_some() {
            return false;
        }
        let mut i: usize = 0;
        while i < self.poll_options.len()
            invariant
                i <= self.poll_options.len(),
                forall|k: int|
                    0 <= k < i ==> (#[trigger] self.poll_options[k]).error_message is None,
            decreases self.poll_options.len() - i,
        {
            if self.poll_options[i].error_message.is_some() {
                return false;
            }
            i += 1;
        }
        true
    }

    /// The specification that the form holds.
    pub fn spec(&self) -> (spec: PollSpec)
        ensures
            holds_spec(*self, spec),
    {
        let mut options: Vec<String> = Vec::new();
        let mut i: usize = 0;
        while i < self.poll_options.len()
            invariant
                i <= self.poll_options.len(),
                options.len() == i,
                forall|k: int| 0 <= k < i ==> #[trigger] options[k] == self.poll_options[k].value,
            decreases self.poll_options.len() - i,
        {
            options.push(self.poll_options[i].value.clone());
            i += 1;
        }
        PollSpec {
            title: self.title.value.clone(),
            description: self.description.value.clone(),
            poll_type: self.poll_type,
            nonce: self.nonce,
            options,
        }
    }

    /// Takes the specification that was entered as text: where it was read,
    /// its parts become the values of the form; where it was refused, the text
    /// is kept with the reason.
    pub fn set_spec(&mut self, spec_string: String, parsed: Result<PollSpec, String>)
        ensures
            spec_was_set(*old(self), *final(self), spec_string, parsed),
    {
        let spec = match parsed {
            Ok(spec) => spec,
            Err(err) => {
                let mut message = String::from_str("Error deserializing spec: ");
                message.append(err.as_str());
                self.spec = ValidatedValue { value: Some(spec_string), error_message: Some(message) };
                return;
            },
        };
        self.spec = ValidatedValue::unvalidated(None);
        self.title = Self::validated_title(spec.title);
        self.description = Self::validated_description(spec.description);
        self.poll_type = spec.poll_type;
        self.nonce = spec.nonce;
        let mut options = spec.options;
        let ghost all = options@;
        let mut poll_options: Vec<ValidatedValue<String>> = Vec::new();
        // The options are taken from the last to the first and then put in order.
        while options.len() > 0
            invariant
                options@ =~= all.take(options@.len() as int),
                poll_options.len() + options.len() == all.len(),
                forall|k: int|
                    0 <= k < poll_options.len() ==> (#[trigger] poll_options[k]).value == all[
                        all.len() - 1 - k] && poll_options[k].error() == option_error(
                        all[all.len() - 1 - k]@,
                    ),
            decreases options.len(),
        {
            match options.pop() {
                Some(description) => {
                    poll_options.push(Self::validated_option(description));
                },
                None => {},
            }
        }
        let ghost reversed = poll_options@;
        let mut ordered: Vec<ValidatedValue<String>> = Vec::new();
        while poll_options.len() > 0
            invariant
                poll_options@ =~= reversed.take(poll_options@.len() as int),
                ordered.len() + poll_options.len() == reversed.len(),
                forall|k: int|
                    0 <= k < ordered.len() ==> #[trigger] ordered[k] == reversed[reversed.len() - 1
                        - k],
            decreases poll_options.len(),
        {
            match poll_options.pop() {
                Some(option) => {
                    ordered.push(option);
                },
                None => {},
            }
        }
        self.poll_options = ordered;
        let ghost options = ordered@;
        assert forall|i: int| 0 <= i < options.len() implies (#[trigger] options[i]).value
            == all[i] && options[i].error() == option_error(all[i]@) by {
            assert(options[i] == reversed[reversed.len() - 1 - i]);
        }
        self.revalidate_options();
        assert(revalidated(options, self.poll_options@));
    }

    pub fn reset_spec(&mut self)
        ensures
            final(self).spec.value is None,
            final(self).spec.error_message is None,
            final(self).title == old(self).title,
            final(self).description == old(self).description,
            final(self).poll_type == old(self).poll_type,
            final(self).nonce == old(self).nonce,
            final(self).poll_options == old(self).poll_options,
    {
        self.spec = ValidatedValue::unvalidated(None);
    }

    /// The form as it is first shown: a single-choice poll with a sample title
    /// and one option.
    pub fn create() -> (form: Self)
        ensures
            form.title.value@ == "Sample poll"@,
            form.description.value@ == Seq::<char>::empty(),
            form.poll_type == PollType::SingleChoice,
            form.poll_options.len() == 1,
            form.poll_options[0].value@ == "Option #1"@,
            form.nonce == 0,
            form.spec.value is None,
            form_is_valid(form),
    {
        let mut poll_options: Vec<ValidatedValue<String>> = Vec::new();
        poll_options.push(ValidatedValue::unvalidated(String::from_str("Option #1")));
        NewPoll {
            title: ValidatedValue::unvalidated(String::from_str("Sample poll")),
            description: ValidatedValue::unvalidated(String::new()),
            poll_type: PollType::SingleChoice,
            poll_options,
            nonce: 0,
            spec: ValidatedValue::unvalidated(None),
        }
    }

    /// Whether the form can take `message` in: an option that is set, removed
    /// or moved is one of the options of the form.
    pub open spec fn accepts(&self, message: NewPollMessage) -> bool {
        match message {
            NewPollMessage::OptionSet(idx, _) => idx < self.poll_options.len(),
            NewPollMessage::OptionRemoved(idx) => idx < self.poll_options.len(),
            NewPollMessage::OptionMoved { old_idx, new_idx } => old_idx < self.poll_options.len()
                && new_idx < self.poll_options.len(),
            _ => true,
        }
    }

    /// What taking `message` in makes of the form `before`: the form `after`
    /// and what is to be done next.
    pub open spec fn step(
        before: NewPoll,
        message: NewPollMessage,
        after: NewPoll,
        action: NewPollAction,
    ) -> bool {
        match message {
            NewPollMessage::TitleSet(title) => {
                &&& action == NewPollAction::Render
                &&& after.title.value == title
                &&& after.title.error() == title_error(title@)
                &&& after.description == before.description
                &&& after.poll_type == before.poll_type
                &&& after.nonce == before.nonce
                &&& after.spec == before.spec
                &&& after.poll_options == before.poll_options
            },
            NewPollMessage::DescriptionSet(description) => {
                &&& action == NewPollAction::Render
                &&& after.description.value == description
                &&& after.description.error() == description_error(description@)
                &&& after.title == before.title
                &&& after.poll_type == before.poll_type
                &&& after.nonce == before.nonce
                &&& after.spec == before.spec
                &&& after.poll_options == before.poll_options
            },
            NewPollMessage::TypeSet(poll_type) => {
                &&& action == NewPollAction::Render
                &&& after.poll_type == poll_type
                &&& after.title == before.title
                &&& after.description == before.description
                &&& after.nonce == before.nonce
                &&& after.spec == before.spec
                &&& after.poll_options == before.poll_options
            },
            NewPollMessage::OptionSet(idx, description) => {
                &&& action == NewPollAction::Render
                &&& same_but_options(before, after)
                &&& option_was_set(
                    before.poll_options@,
                    after.poll_options@,
                    idx as int,
                    description,
                )
            },
            NewPollMessage::OptionRemoved(idx) => {
                &&& action == NewPollAction::Render
                &&& same_but_options(before, after)
                &&& revalidated(before.poll_options@.remove(idx as int), after.poll_options@)
            },
            NewPollMessage::OptionMoved { old_idx, new_idx } => {
                &&& action == NewPollAction::Render
                &&& same_but_options(before, after)
                &&& after.poll_options@ == before.poll_options@.update(
                    old_idx as int,
                    before.poll_options[new_idx as int],
                ).update(new_idx as int, before.poll_options[old_idx as int])
            },
            NewPollMessage::OptionAdded => {
                &&& action == NewPollAction::Render
                &&& same_but_options(before, after)
                &&& option_was_added(before.poll_options@, after.poll_options@)
            },
            NewPollMessage::SpecSet(spec_string, parsed) => {
                &&& action == NewPollAction::Render
                &&& spec_was_set(before, after, spec_string, parsed)
            },
            NewPollMessage::SpecReset => {
                &&& action == NewPollAction::Render
                &&& after.spec.value is None
                &&& after.spec.error_message is None
                &&& after.title == before.title
                &&& after.description == before.description
                &&& after.poll_type == before.poll_type
                &&& after.nonce == before.nonce
                &&& after.poll_options == before.poll_options
            },
            NewPollMessage::ExportRequested => {
                &&& action matches NewPollAction::Export(spec)
                &&& holds_spec(before, spec)
                &&& after == before
            },
            NewPollMessage::Done => {
                &&& action matches NewPollAction::Done(spec)
                &&& holds_spec(before, spec)
                &&& after == before
            },
        }
    }

    /// Takes `message` in and says what is to be done next.
    pub fn update(&mut self, message: NewPollMessage) -> (action: NewPollAction)
        requires
            old(self).accepts(message),
        ensures
            Self::step(*old(self), message, *final(self), action),
    {
        match message {
            NewPollMessage::TitleSet(title) => {
                self.title = Self::validated_title(title);
            },
            NewPollMessage::DescriptionSet(description) => {
                self.description = Self::validated_description(description);
            },
            NewPollMessage::TypeSet(ty) => {
                self.poll_type = ty;
            },
            NewPollMessage::OptionSet(idx, description) => {
                let option = Self::validated_option(description);
                self.poll_options[idx] = option;
                let ghost set = self.poll_options@;
                self.revalidate_options();
                assert(revalidated(
                    old(self).poll_options@.update(idx as int, option),
                    self.poll_options@,
                )) by {
                    assert(set =~= old(self).poll_options@.update(idx as int, option));
                }
            },
            NewPollMessage::OptionRemoved(idx) => {
                self.poll_options.remove(idx);
                self.revalidate_options();
            },
            NewPollMessage::OptionMoved { old_idx, new_idx } => {
                if old_idx != new_idx {
                    let ghost before = self.poll_options@;
                    let (low, high) = if old_idx < new_idx {
                        (old_idx, new_idx)
                    } else {
                        (new_idx, old_idx)
                    };
                    let upper = self.poll_options.remove(high);
                    let lower = self.poll_options.remove(low);
                    self.poll_options.insert(low, upper);
                    self.poll_options.insert(high, lower);
                    assert(self.poll_options@ =~= before.update(
                        old_idx as int,
                        before[new_idx as int],
                    ).update(new_idx as int, before[old_idx as int]));
                } else {
                    assert(self.poll_options@ =~= self.poll_options@.update(
                        old_idx as int,
                        self.poll_options[new_idx as int],
                    ).update(new_idx as int, self.poll_options[old_idx as int]));
                }
            },
            NewPollMessage::OptionAdded => {
                let mut new_description = String::from_str("Option #");
                append_decimal(&mut new_description, self.poll_options.len() as u128 + 1);
                let option = Self::validated_option(new_description);
                self.poll_options.push(option);
                self.revalidate_options();
                assert(revalidated(old(self).poll_options@.push(option), self.poll_options@));
            },
            NewPollMessage::SpecSet(spec, parsed) => {
                self.set_spec(spec, parsed);
            },
            NewPollMessage::SpecReset => {
                self.reset_spec();
            },
            NewPollMessage::ExportRequested => {
                return NewPollAction::Export(self.spec());
            },
            NewPollMessage::Done => {
                return NewPollAction::Done(self.spec());
            },
        }
        NewPollAction::Render
    }
}

} // verus!

//! Poll data types and the poll's state machine.

use crate::encoding::{
    append_decimal, base64url, base64url_decode, base64url_decoded, base64url_encode, decimal,
    json_array_tail, json_quote, json_quoted, sha256, sha256_digest, text_equal,
};
use vstd::prelude::*;
use vstd::string::*;
use vstd::utf8::encode_utf8;

pub mod laws;
pub mod managers;
pub mod participant;
pub mod state;
pub mod tally;

pub use self::managers::{PollManager, SecretManager, SecretManagerStatus};
pub use self::participant::{
    EncryptedVoteChoice, Participant, ParticipantApplication, ShareWithProof,
    SubmittedTallierShare, SubmittedVote, TallierShare, TallierShareError, Vote, VoteChoice,
    VoteError,
};
pub use self::state::{ExportedPoll, ImportError, PollState, PollStateView, TallyResult};

verus! {

/// Maximum allowed number of options in a poll (inclusive).
pub const MAX_OPTIONS: usize = 16;

#[derive(Debug, Clone, Copy, PartialEq, Eq, Structural)]
pub enum PollType {
    SingleChoice,
    MultiChoice,
}

impl PollType {
    /// The type in words, for messages shown to a person.
    pub open spec fn human_text(self) -> Seq<char> {
        match self {
            PollType::SingleChoice => "single choice"@,
            PollType::MultiChoice => "multiple choice"@,
        }
    }

    /// The type as it is written in JSON.
    pub open spec fn tag_text(self) -> Seq<char> {
        match self {
            PollType::SingleChoice => "single_choice"@,
            PollType::MultiChoice => "multi_choice"@,
        }
    }

    /// The type that `text` names in JSON, if it names one.
    pub open spec fn from_tag_text(text: Seq<char>) -> Option<PollType> {
        if text == "single_choice"@ {
            Some(PollType::SingleChoice)
        } else if text == "multi_choice"@ {
            Some(PollType::MultiChoice)
        } else {
            None
        }
    }

    pub fn as_human_string(self) -> (text: &'static str)
        ensures
            text@ == self.human_text(),
    {
        match self {
            PollType::SingleChoice => "single choice",
            PollType::MultiChoice => "multiple choice",
        }
    }

    pub fn as_str(self) -> (text: &'static str)
        ensures
            text@ == self.tag_text(),
    {
        match self {
            PollType::SingleChoice => "single_choice",
            PollType::MultiChoice => "multi_choice",
        }
    }

    /// Reads a poll type as it is written in JSON: `single_choice` or
    /// `multi_choice`, and nothing else.
    pub fn parse(text: &str) -> (parsed: Option<PollType>)
        ensures
            parsed == PollType::from_tag_text(text@),
    {
        if text_equal(text, "single_choice") {
            Some(PollType::SingleChoice)
        } else if text_equal(text, "multi_choice") {
            Some(PollType::MultiChoice)
        } else {
            None
        }
    }
}

/// What a poll asks: immutable once published, and hashed to the poll's id.
#[derive(Debug, Clone, PartialEq, Eq)]
pub struct PollSpec {
    pub title: String,
    pub description: String,
    pub poll_type: PollType,
    /// Tells apart polls that are otherwise the same.
    pub nonce: u32,
    /// Between 1 and [`MAX_OPTIONS`] labels.
    pub options: Vec<String>,
}

/// The JSON string literals for `texts`.
pub open spec fn quoted_texts(texts: Seq<String>) -> Seq<Seq<char>> {
    Seq::new(texts.len(), |i: int| json_quoted(texts[i]@))
}

/// The views of `texts`.
pub open spec fn text_views(texts: Seq<String>) -> Seq<Seq<char>> {
    Seq::new(texts.len(), |i: int| texts[i]@)
}

impl PollSpec {
    /// A poll has at least one option and at most [`MAX_OPTIONS`].
    pub open spec fn valid(&self) -> bool {
        1 <= self.options.len() <= MAX_OPTIONS
    }

    pub fn is_valid(&self) -> (valid: bool)
        ensures
            valid == self.valid(),
    {
        crate::utils::VecHelper::<1, MAX_OPTIONS>::accepts(self.options.len())
    }

    /// The JSON object of a specification, given the JSON string literals for
    /// its title, its description and its options: the fields `title`,
    /// `description`, `poll_type`, `nonce` and `options`, in this order and
    /// without white space.
    pub open spec fn framed_json(
        title: Seq<char>,
        description: Seq<char>,
        poll_type: PollType,
        nonce: u32,
        options: Seq<Seq<char>>,
    ) -> Seq<char> {
        "{\"title\":"@ + title + ",\"description\":"@ + description + ",\"poll_type\":\""@
            + poll_type.tag_text() + "\",\"nonce\":"@ + decimal(nonce as nat)
            + ",\"options\":["@ + json_array_tail(options, 0) + "}"@
    }

    /// The canonical JSON text of the specification: the object of
    /// [`PollSpec::framed_json`] for the string literals of its texts.
    pub open spec fn canonical_json(&self) -> Seq<char> {
        Self::framed_json(
            json_quoted(self.title@),
            json_quoted(self.description@),
            self.poll_type,
            self.nonce,
            quoted_texts(self.options@),
        )
    }

    /// Writes the JSON object of a specification from the JSON string literals
    /// for its title, its description and its options.
    pub fn frame_json(
        title: &str,
        description: &str,
        poll_type: PollType,
        nonce: u32,
        options: &Vec<String>,
    ) -> (json: String)
        ensures
            json@ == Self::framed_json(
                title@,
                description@,
                poll_type,
                nonce,
                text_views(options@),
            ),
    {
        let mut json = String::from_str("{\"title\":");
        json.append(title);
        json.append(",\"description\":");
        json.append(description);
        json.append(",\"poll_type\":\"");
        json.append(poll_type.as_str());
        json.append("\",\"nonce\":");
        append_decimal(&mut json, nonce as u128);
        json.append(",\"options\":[");
        let ghost head = json@;
        let ghost items = text_views(options@);
        let mut i: usize = 0;
        while i < options.len()
            invariant
                i <= options.len(),
                items == text_views(options@),
                head + json_array_tail(items, 0) == json@ + json_array_tail(items, i as int),
            decreases options.len() - i,
        {
            json.append(options[i].as_str());
            if i + 1 < options.len() {
                json.append(",");
            }
            i += 1;
        }
        json.append("]");
        json.append("}");
        json
    }

    /// Writes the canonical JSON text of the specification.
    pub fn to_json(&self) -> (json: String)
        ensures
            json@ == self.canonical_json(),
    {
        let mut options: Vec<String> = Vec::new();
        let mut i: usize = 0;
        while i < self.options.len()
            invariant
                i <= self.options.len(),
                options.len() == i,
                forall|k: int| 0 <= k < i ==> (#[trigger] options[k])@ == json_quoted(self.options[k]@),
            decreases self.options.len() - i,
        {
            options.push(json_quote(self.options[i].as_str()));
            i += 1;
        }
        assert(text_views(options@) =~= quoted_texts(self.options@));
        Self::frame_json(
            json_quote(self.title.as_str()).as_str(),
            json_quote(self.description.as_str()).as_str(),
            self.poll_type,
            self.nonce,
            &options,
        )
    }
}

/// Content-based poll ID: the SHA-256 digest of the canonical JSON text of the
/// poll's specification.
#[derive(Debug, Clone, Copy, PartialEq, Eq, Hash)]
pub struct PollId(pub [u8; 32]);

impl View for PollId {
    type V = Seq<u8>;

    open spec fn view(&self) -> Seq<u8> {
        self.0@
    }
}

/// Why a text is not a poll ID.
#[derive(Debug, Clone, Copy, PartialEq, Eq, Structural)]
pub enum PollIdError {
    /// The text is not 43 characters long, or does not decode to 32 bytes.
    UnexpectedLength,
    /// The text is not unpadded URL-safe Base64.
    InvalidEncoding,
}

impl PollIdError {
    pub fn to_string(&self) -> (message: String)
        ensures
            message@ == (match self {
                PollIdError::UnexpectedLength => "Unexpected poll ID length"@,
                PollIdError::InvalidEncoding => "invalid Base64 encoding"@,
            }),
    {
        match self {
            PollIdError::UnexpectedLength => String::from_str("Unexpected poll ID length"),
            PollIdError::InvalidEncoding => String::from_str("invalid Base64 encoding"),
        }
    }
}

impl PollId {
    /// Length of a poll ID as text: 32 bytes in Base64 without padding.
    pub const TEXT_LEN: usize = 43;

    /// The ID of the poll that `spec` describes. Two specifications with the
    /// same canonical text have the same ID.
    pub fn for_spec(spec: &PollSpec) -> (id: PollId)
        ensures
            id@ == sha256_digest(encode_utf8(spec.canonical_json())),
    {
        let json = spec.to_json();
        PollId(sha256(json.as_str().as_bytes()))
    }

    pub fn as_bytes(&self) -> (bytes: &[u8; 32])
        ensures
            *bytes == self.0,
    {
        &self.0
    }

    /// The ID as text: unpadded URL-safe Base64.
    pub fn to_string(&self) -> (text: String)
        ensures
            text@ == base64url(self@),
    {
        base64url_encode(self.0.as_slice())
    }

    /// What [`PollId::parse`] makes of the UTF-8 text `text`: a text of 43
    /// bytes is decoded, any other is refused for its length.
    pub open spec fn parsed(text: Seq<u8>) -> Result<Seq<u8>, PollIdError> {
        if text.len() != PollId::TEXT_LEN {
            Err(PollIdError::UnexpectedLength)
        } else {
            PollId::of_decoded(base64url_decoded(text))
        }
    }

    /// What the bytes that the text of a poll ID was decoded to make: a poll
    /// ID where there are 32 of them.
    pub open spec fn of_decoded(decoded: Option<Seq<u8>>) -> Result<Seq<u8>, PollIdError> {
        match decoded {
            None => Err(PollIdError::InvalidEncoding),
            Some(bytes) => if bytes.len() == 32 {
                Ok(bytes)
            } else {
                Err(PollIdError::UnexpectedLength)
            },
        }
    }

    /// Makes a poll ID of the bytes that its text was decoded to; `None`
    /// stands for a text that could not be decoded.
    pub fn from_decoded(decoded: Option<Vec<u8>>) -> (id: Result<PollId, PollIdError>)
        ensures
            match id {
                Ok(id) => PollId::of_decoded(
                    match decoded {
                        Some(bytes) => Some(bytes@),
                        None => None,
                    },
                ) == Ok::<Seq<u8>, PollIdError>(id@),
                Err(err) => PollId::of_decoded(
                    match decoded {
                        Some(bytes) => Some(bytes@),
                        None => None,
                    },
                ) == Err::<Seq<u8>, PollIdError>(err),
            },
    {
        match decoded {
            None => Err(PollIdError::InvalidEncoding),
            Some(bytes) => {
                if bytes.len() != 32 {
                    return Err(PollIdError::UnexpectedLength);
                }
                let mut id: [u8; 32] = [0u8; 32];
                let mut i: usize = 0;
                while i < 32
                    invariant
                        i <= 32,
                        bytes.len() == 32,
                        forall|j: int| 0 <= j < i ==> id@[j] == bytes@[j],
                    decreases 32 - i,
                {
                    id[i] = bytes[i];
                    i += 1;
                }
                assert(id@ =~= bytes@);
                Ok(PollId(id))
            },
        }
    }

    /// Reads a poll ID from its text, given as UTF-8 bytes.
    pub fn parse(text: &[u8]) -> (id: Result<PollId, PollIdError>)
        ensures
            match id {
                Ok(id) => PollId::parsed(text@) == Ok::<Seq<u8>, PollIdError>(id@),
                Err(err) => PollId::parsed(text@) == Err::<Seq<u8>, PollIdError>(err),
            },
    {
        if text.len() != PollId::TEXT_LEN {
            return Err(PollIdError::UnexpectedLength);
        }
        PollId::from_decoded(base64url_decode(text))
    }

    /// Reads a poll ID from its text.
    pub fn from_str(text: &str) -> (id: Result<PollId, PollIdError>)
        ensures
            match id {
                Ok(id) => PollId::parsed(encode_utf8(text@)) == Ok::<Seq<u8>, PollIdError>(id@),
                Err(err) => PollId::parsed(encode_utf8(text@)) == Err::<Seq<u8>, PollIdError>(err),
            },
    {
        PollId::parse(text.as_bytes())
    }
}

/// Where a poll stands, with the counts that the stage is about.
#[derive(Debug, Clone, Copy, PartialEq, Eq, Structural)]
pub enum PollStage {
    Participants { participants: usize },
    Voting { votes: usize, participants: usize },
    Tallying { shares: usize, participants: usize },
    Finished,
}

impl PollStage {
    pub const PARTICIPANTS_IDX: usize = 1;

    pub const VOTING_IDX: usize = 2;

    pub const TALLYING_IDX: usize = 3;

    pub const FINISHED_IDX: usize = 4;

    pub const MAX_INDEX: usize = 4;

    /// The place of the stage in the order in which a poll passes the stages.
    pub open spec fn spec_index(&self) -> usize {
        match self {
            PollStage::Participants { .. } => 1,
            PollStage::Voting { .. } => 2,
            PollStage::Tallying { .. } => 3,
            PollStage::Finished => 4,
        }
    }

    #[verifier::when_used_as_spec(spec_index)]
    pub fn index(&self) -> (index: usize)
        ensures
            index == self.spec_index(),
            1 <= index <= PollStage::MAX_INDEX,
    {
        match self {
            PollStage::Participants { .. } => PollStage::PARTICIPANTS_IDX,
            PollStage::Voting { .. } => PollStage::VOTING_IDX,
            PollStage::Tallying { .. } => PollStage::TALLYING_IDX,
            PollStage::Finished => PollStage::FINISHED_IDX,
        }
    }
}

} // verus!

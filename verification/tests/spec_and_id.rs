//! Tests for poll specifications, poll IDs and the small types around them.

use elasticpoll::encoding::{bytes_equal, text_equal};
use elasticpoll::poll::{
    PollId, PollIdError, PollManager, PollSpec, PollStage, PollType, SecretManager,
    SecretManagerStatus, VoteChoice, MAX_OPTIONS,
};
use elasticpoll::utils::{InvalidLength, VecHelper};
use sha2::{Digest, Sha256};

fn sample_spec() -> PollSpec {
    PollSpec {
        title: "Sample poll".to_owned(),
        description: "".to_owned(),
        poll_type: PollType::SingleChoice,
        nonce: 0,
        options: vec!["Option #1".to_owned(), "Option #2".to_owned()],
    }
}

#[test]
fn canonical_json_of_a_spec() {
    assert_eq!(
        sample_spec().to_json(),
        "{\"title\":\"Sample poll\",\"description\":\"\",\"poll_type\":\"single_choice\",\
         \"nonce\":0,\"options\":[\"Option #1\",\"Option #2\"]}"
    );
}

#[test]
fn canonical_json_escapes_strings() {
    let spec = PollSpec {
        title: "Quote \" and \\ and\nnewline \u{1} é".to_owned(),
        description: "d".to_owned(),
        poll_type: PollType::MultiChoice,
        nonce: u32::MAX,
        options: vec!["a".to_owned()],
    };
    assert_eq!(
        spec.to_json(),
        "{\"title\":\"Quote \\\" and \\\\ and\\nnewline \\u0001 é\",\"description\":\"d\",\
         \"poll_type\":\"multi_choice\",\"nonce\":4294967295,\"options\":[\"a\"]}"
    );
    assert_eq!(
        PollId::for_spec(&spec).to_string(),
        "DSwiT1vFZmBJRt8Z2c1e9mlB7BcSxbUfD_i2Saa3F2o"
    );
}

#[test]
fn json_object_is_framed_from_literals() {
    let options = vec!["\"A\"".to_owned(), "\"B\"".to_owned(), "\"C\"".to_owned()];
    assert_eq!(
        PollSpec::frame_json("\"T\"", "\"D\"", PollType::MultiChoice, 42, &options),
        "{\"title\":\"T\",\"description\":\"D\",\"poll_type\":\"multi_choice\",\"nonce\":42,\
         \"options\":[\"A\",\"B\",\"C\"]}"
    );
    assert_eq!(
        PollSpec::frame_json("\"\"", "\"\"", PollType::SingleChoice, 0, &vec![]),
        "{\"title\":\"\",\"description\":\"\",\"poll_type\":\"single_choice\",\"nonce\":0,\
         \"options\":[]}"
    );
}

#[test]
fn poll_id_is_made_of_32_decoded_bytes() {
    assert_eq!(PollId::from_decoded(None), Err(PollIdError::InvalidEncoding));
    assert_eq!(PollId::from_decoded(Some(vec![])), Err(PollIdError::UnexpectedLength));
    assert_eq!(PollId::from_decoded(Some(vec![1; 31])), Err(PollIdError::UnexpectedLength));
    assert_eq!(PollId::from_decoded(Some(vec![1; 33])), Err(PollIdError::UnexpectedLength));
    let bytes: Vec<u8> = (100..132).collect();
    let id = PollId::from_decoded(Some(bytes.clone())).unwrap();
    assert_eq!(id.0.to_vec(), bytes);
}

#[test]
fn canonical_json_is_valid_json() {
    let spec = sample_spec();
    let json: serde_json::Value = serde_json::from_str(&spec.to_json()).unwrap();
    assert_eq!(json.pointer("/title").unwrap().as_str(), Some("Sample poll"));
    assert_eq!(json.pointer("/poll_type").unwrap().as_str(), Some("single_choice"));
    assert_eq!(json.pointer("/nonce").unwrap().as_u64(), Some(0));
    assert_eq!(json.pointer("/options/1").unwrap().as_str(), Some("Option #2"));
    assert_eq!(json.pointer("/options").unwrap().as_array().unwrap().len(), 2);
}

#[test]
fn poll_id_is_the_hash_of_the_canonical_json() {
    let spec = sample_spec();
    let id = PollId::for_spec(&spec);
    let expected: [u8; 32] = Sha256::digest(spec.to_json()).into();
    assert_eq!(id.0, expected);
    assert_eq!(id.as_bytes(), &expected);
    assert_eq!(id.to_string(), "8C7uR9JbWJu8lBcgx0-q0ABwHPPsdPoiBvKrg6MROes");
}

#[test]
fn poll_id_depends_on_the_nonce() {
    let spec = sample_spec();
    let mut other_spec = sample_spec();
    other_spec.nonce = 1;
    assert_eq!(PollId::for_spec(&spec), PollId::for_spec(&sample_spec()));
    assert_ne!(PollId::for_spec(&spec), PollId::for_spec(&other_spec));
}

#[test]
fn poll_id_text_round_trips() {
    let id = PollId::for_spec(&sample_spec());
    let text = id.to_string();
    assert_eq!(text.len(), PollId::TEXT_LEN);
    assert_eq!(PollId::from_str(&text), Ok(id));
    assert_eq!(PollId::parse(text.as_bytes()), Ok(id));

    let bytes: Vec<u8> = (0..32).collect();
    let id = PollId::from_str("AAECAwQFBgcICQoLDA0ODxAREhMUFRYXGBkaGxwdHh8").unwrap();
    assert_eq!(id.0.to_vec(), bytes);
    assert_eq!(id.to_string(), "AAECAwQFBgcICQoLDA0ODxAREhMUFRYXGBkaGxwdHh8");
}

#[test]
fn malformed_poll_id_is_rejected() {
    let text = "8C7uR9JbWJu8lBcgx0-q0ABwHPPsdPoiBvKrg6MROes";
    assert_eq!(PollId::from_str(&text[1..]), Err(PollIdError::UnexpectedLength));
    assert_eq!(PollId::from_str(""), Err(PollIdError::UnexpectedLength));
    let longer = format!("{text}A");
    assert_eq!(PollId::from_str(&longer), Err(PollIdError::UnexpectedLength));
    let invalid = text.replace('-', "!");
    assert_eq!(PollId::from_str(&invalid), Err(PollIdError::InvalidEncoding));
    let padded = format!("{}=", &text[1..]);
    assert_eq!(PollId::from_str(&padded), Err(PollIdError::InvalidEncoding));
    assert_eq!(PollIdError::UnexpectedLength.to_string(), "Unexpected poll ID length");
}

#[test]
fn poll_type_is_read_and_written() {
    assert_eq!(PollType::parse("single_choice"), Some(PollType::SingleChoice));
    assert_eq!(PollType::parse("multi_choice"), Some(PollType::MultiChoice));
    assert_eq!(PollType::parse("single choice"), None);
    assert_eq!(PollType::parse(""), None);
    assert_eq!(PollType::SingleChoice.as_str(), "single_choice");
    assert_eq!(PollType::MultiChoice.as_str(), "multi_choice");
    assert_eq!(PollType::SingleChoice.as_human_string(), "single choice");
    assert_eq!(PollType::MultiChoice.as_human_string(), "multiple choice");
}

#[test]
fn spec_needs_one_to_sixteen_options() {
    let mut spec = sample_spec();
    assert!(spec.is_valid());
    spec.options.clear();
    assert!(!spec.is_valid());
    spec.options = (0..MAX_OPTIONS).map(|i| format!("#{i}")).collect();
    assert!(spec.is_valid());
    spec.options.push("one too many".to_owned());
    assert!(!spec.is_valid());
}

#[test]
fn list_bounds_are_checked() {
    let _ = VecHelper::<1, 16>::new();
    assert!(VecHelper::<1, 16>::accepts(1));
    assert!(VecHelper::<1, 16>::accepts(16));
    assert!(!VecHelper::<1, 16>::accepts(0));
    assert!(!VecHelper::<1, 16>::accepts(17));
    assert_eq!(VecHelper::<2, 3>::check(vec![1, 2]), Ok(vec![1, 2]));
    assert_eq!(VecHelper::<2, 3>::check(vec![1]), Err(InvalidLength { actual: 1 }));
    assert_eq!(
        VecHelper::<2, 3>::check(vec![1, 2, 3, 4]),
        Err(InvalidLength { actual: 4 })
    );
    assert_eq!(VecHelper::<1, 16>::expecting(), "at least 1 and at most 16 items");
    assert_eq!(VecHelper::<0, 1234567890>::expecting(), "at least 0 and at most 1234567890 items");
}

#[test]
fn texts_and_bytes_are_compared() {
    assert!(bytes_equal(b"abc", b"abc"));
    assert!(!bytes_equal(b"abc", b"abd"));
    assert!(!bytes_equal(b"abc", b"ab"));
    assert!(bytes_equal(b"", b""));
    assert!(text_equal("é", "é"));
    assert!(!text_equal("é", "e"));
}

#[test]
fn stage_indexes_follow_the_order_of_stages() {
    let stages = [
        PollStage::Participants { participants: 3 },
        PollStage::Voting { votes: 1, participants: 3 },
        PollStage::Tallying { shares: 2, participants: 3 },
        PollStage::Finished,
    ];
    let indexes: Vec<_> = stages.iter().map(PollStage::index).collect();
    assert_eq!(indexes, [1, 2, 3, 4]);
    assert_eq!(PollStage::PARTICIPANTS_IDX, 1);
    assert_eq!(PollStage::VOTING_IDX, 2);
    assert_eq!(PollStage::TALLYING_IDX, 3);
    assert_eq!(PollStage::FINISHED_IDX, 4);
    assert_eq!(PollStage::MAX_INDEX, 4);
}

#[test]
fn default_choice_follows_the_poll_type() {
    let mut spec = sample_spec();
    assert_eq!(VoteChoice::default(&spec), VoteChoice::SingleChoice(0));
    spec.poll_type = PollType::MultiChoice;
    assert_eq!(VoteChoice::default(&spec), VoteChoice::MultiChoice(vec![false, false]));
    assert_eq!(VoteChoice::default(&spec).poll_type(), PollType::MultiChoice);
    assert_eq!(VoteChoice::SingleChoice(1).poll_type(), PollType::SingleChoice);
}

#[test]
fn single_choice_is_replaced_by_selection() {
    let mut choice = VoteChoice::SingleChoice(0);
    assert!(choice.is_selected(0));
    assert!(!choice.is_selected(1));
    choice.select(1, true);
    assert_eq!(choice, VoteChoice::SingleChoice(1));
    // Taking a single choice back changes nothing.
    choice.select(1, false);
    assert_eq!(choice, VoteChoice::SingleChoice(1));
    choice.select(0, false);
    assert_eq!(choice, VoteChoice::SingleChoice(1));
    assert!(choice.is_selected(1));
}

#[test]
fn multi_choice_selects_each_option_separately() {
    let mut choice = VoteChoice::MultiChoice(vec![false; 3]);
    choice.select(2, true);
    choice.select(0, true);
    assert_eq!(choice, VoteChoice::MultiChoice(vec![true, false, true]));
    assert!(choice.is_selected(0) && !choice.is_selected(1) && choice.is_selected(2));
    choice.select(0, false);
    assert_eq!(choice, VoteChoice::MultiChoice(vec![false, false, true]));
}

#[test]
fn storage_keys_name_polls() {
    let manager = PollManager::default();
    assert_eq!(manager.storage_key_prefix, "elastic_poll");
    let id = PollId::for_spec(&sample_spec());
    let key = manager.storage_key(&id);
    assert_eq!(key, "elastic_poll::poll::8C7uR9JbWJu8lBcgx0-q0ABwHPPsdPoiBvKrg6MROes");
    assert_eq!(manager.extract_poll_id(&key), Some(id));

    assert_eq!(manager.extract_poll_id("elastic_poll::secret"), None);
    assert_eq!(manager.extract_poll_id("elastic_poll::poll::"), None);
    assert_eq!(manager.extract_poll_id("elastic_poll::poll::8C7u"), None);
    assert_eq!(manager.extract_poll_id("elastic_poll"), None);
    assert_eq!(manager.extract_poll_id(""), None);
    let other_key = key.replace("elastic_poll", "elastic_pool");
    assert_eq!(manager.extract_poll_id(&other_key), None);
    let other_key = key.replace("::poll::", "::poll:;");
    assert_eq!(manager.extract_poll_id(&other_key), None);

    let other_manager = PollManager { storage_key_prefix: "é" };
    let key = other_manager.storage_key(&id);
    assert_eq!(key, "é::poll::8C7uR9JbWJu8lBcgx0-q0ABwHPPsdPoiBvKrg6MROes");
    assert_eq!(other_manager.extract_poll_id(&key), Some(id));
    assert_eq!(manager.extract_poll_id(&key), None);
}

#[test]
fn secret_manager_derives_keys_once_unlocked() {
    let id = PollId::for_spec(&sample_spec());
    let mut manager = SecretManager::new();
    assert_eq!(manager.status(false), None);
    assert_eq!(manager.status(true), Some(SecretManagerStatus::Locked));
    assert!(manager.keys_for_poll(&id).is_none());
    assert!(manager.public_key_for_poll(&id).is_none());

    manager.unlock_with_secret([11; 32]);
    assert_eq!(manager.status(false), None);
    assert_eq!(manager.status(true), Some(SecretManagerStatus::Unlocked));
    let keys = manager.keys_for_poll(&id).unwrap();
    assert_eq!(manager.public_key_for_poll(&id), Some(*keys.public()));
    // The same secret gives the same keys for the same poll.
    let mut same_manager = SecretManager::new();
    same_manager.unlock_with_secret([11; 32]);
    assert_eq!(same_manager.public_key_for_poll(&id), Some(*keys.public()));

    let mut other_spec = sample_spec();
    other_spec.nonce = 1;
    let other_id = PollId::for_spec(&other_spec);
    assert_ne!(manager.public_key_for_poll(&other_id), Some(*keys.public()));
    manager.unlock_with_secret([12; 32]);
    assert_ne!(manager.public_key_for_poll(&id), Some(*keys.public()));
}

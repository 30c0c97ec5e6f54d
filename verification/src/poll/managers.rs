//! What the keepers of polls and of secrets decide: under which key a poll is
//! stored, and which keys belong to a poll. Reading and writing the store and
//! sealing the master secret with a password are left to the application.

use crate::encoding::{base64url, bytes_equal};
use crate::group::{derived_keys, Keypair, PublicKey};
use crate::poll::PollId;
use vstd::prelude::*;
use vstd::slice::slice_subrange;
use vstd::string::*;
use vstd::utf8::encode_utf8;

verus! {

/// Names the entries of a key-value store under which polls are kept.
#[derive(Debug)]
pub struct PollManager {
    pub storage_key_prefix: &'static str,
}

impl Default for PollManager {
    fn default() -> (manager: Self)
        ensures
            manager.storage_key_prefix@ == "elastic_poll"@,
    {
        PollManager { storage_key_prefix: "elastic_poll" }
    }
}

impl PollManager {
    /// What stands between the prefix and the ID of a poll in a storage key.
    pub const SEPARATOR: &'static str = "::poll::";

    /// The key under which the poll with the ID `id` is stored.
    pub open spec fn key_for(&self, id: PollId) -> Seq<char> {
        self.storage_key_prefix@ + "::poll::"@ + base64url(id@)
    }

    /// The key under which the poll with the ID `id` is stored: the prefix,
    /// `::poll::` and the ID as text.
    pub fn storage_key(&self, id: &PollId) -> (key: String)
        ensures
            key@ == self.key_for(*id),
    {
        let mut key = String::from_str(self.storage_key_prefix);
        key.append("::poll::");
        key.append(id.to_string().as_str());
        key
    }

    /// The text of the poll ID in the storage key `key`, as UTF-8 bytes: what
    /// follows the prefix and `::poll::`, where the key starts with them.
    pub open spec fn id_text(&self, key: Seq<u8>) -> Option<Seq<u8>> {
        let head = encode_utf8(self.storage_key_prefix@) + encode_utf8("::poll::"@);
        if head.len() <= key.len() && key.subrange(0, head.len() as int) == head {
            Some(key.subrange(head.len() as int, key.len() as int))
        } else {
            None
        }
    }

    /// The ID of the poll that is stored under `storage_key`, where the key
    /// is one of this manager's and names a poll.
    pub fn extract_poll_id(&self, storage_key: &str) -> (id: Option<PollId>)
        ensures
            match id {
                Some(id) => self.id_text(encode_utf8(storage_key@)) matches Some(text)
                    && PollId::parsed(text) == Ok::<Seq<u8>, crate::poll::PollIdError>(id@),
                None => self.id_text(encode_utf8(storage_key@)) matches Some(text)
                    ==> PollId::parsed(text) is Err,
            },
    {
        let key = storage_key.as_bytes();
        let prefix = self.storage_key_prefix.as_bytes();
        let separator = "::poll::".as_bytes();
        if key.len() < prefix.len() || key.len() - prefix.len() < separator.len() {
            return None;
        }
        let head_len = prefix.len() + separator.len();
        if !bytes_equal(slice_subrange(key, 0, prefix.len()), prefix) {
            assert(key@.subrange(0, head_len as int).subrange(0, prefix@.len() as int)
                =~= key@.subrange(0, prefix@.len() as int));
            assert((prefix@ + separator@).subrange(0, prefix@.len() as int) =~= prefix@);
            return None;
        }
        if !bytes_equal(slice_subrange(key, prefix.len(), head_len), separator) {
            assert(key@.subrange(0, head_len as int).subrange(
                prefix@.len() as int,
                head_len as int,
            ) =~= key@.subrange(prefix@.len() as int, head_len as int));
            assert((prefix@ + separator@).subrange(prefix@.len() as int, head_len as int)
                =~= separator@);
            return None;
        }
        assert(key@.subrange(0, head_len as int) =~= prefix@ + separator@);
        match PollId::parse(slice_subrange(key, head_len, key.len())) {
            Ok(id) => Some(id),
            Err(_) => None,
        }
    }
}

/// Whether the master secret of the application can be used.
#[derive(Debug, Clone, Copy, PartialEq, Eq, Structural)]
pub enum SecretManagerStatus {
    Locked,
    Unlocked,
}

/// Manager of application secrets: holds the master secret while it is
/// unlocked and derives from it the keys for each poll. The secret is not
/// printed for debugging.
pub struct SecretManager {
    seed: Option<[u8; 32]>,
}

impl SecretManager {
    /// The master secret, where the manager is unlocked.
    pub closed spec fn secret(&self) -> Option<Seq<u8>> {
        match self.seed {
            Some(seed) => Some(seed@),
            None => None,
        }
    }

    /// A manager that is locked.
    pub fn new() -> (manager: Self)
        ensures
            manager.secret() is None,
    {
        SecretManager { seed: None }
    }

    /// Unlocks the manager with the master secret `seed`.
    pub fn unlock_with_secret(&mut self, seed: [u8; 32])
        ensures
            final(self).secret() == Some(seed@),
    {
        self.seed = Some(seed);
    }

    /// Whether the manager is locked or unlocked; `None` where no master
    /// secret has been stored yet.
    pub fn status(&self, has_stored_secret: bool) -> (status: Option<SecretManagerStatus>)
        ensures
            status == (if !has_stored_secret {
                None
            } else if self.secret() is Some {
                Some(SecretManagerStatus::Unlocked)
            } else {
                Some(SecretManagerStatus::Locked)
            }),
    {
        if !has_stored_secret {
            None
        } else {
            Some(
                match self.seed {
                    None => SecretManagerStatus::Locked,
                    Some(_) => SecretManagerStatus::Unlocked,
                },
            )
        }
    }

    /// The keys for the poll `poll_id`: always the same for the same master
    /// secret and poll. Returns `None` if the manager is not unlocked.
    pub fn keys_for_poll(&self, poll_id: &PollId) -> (keys: Option<Keypair>)
        ensures
            match keys {
                Some(keys) => self.secret() matches Some(seed) && keys.secret_text()
                    == derived_keys(seed, poll_id@).0 && keys.public_key()@ == derived_keys(
                    seed,
                    poll_id@,
                ).1,
                None => self.secret() is None,
            },
    {
        match &self.seed {
            Some(seed) => Some(Keypair::derive(seed, &poll_id.0)),
            None => None,
        }
    }

    /// The public key for the poll `poll_id`. Returns `None` if the manager is
    /// not unlocked.
    pub fn public_key_for_poll(&self, poll_id: &PollId) -> (key: Option<PublicKey>)
        ensures
            match key {
                Some(key) => self.secret() matches Some(seed) && key@ == derived_keys(
                    seed,
                    poll_id@,
                ).1,
                None => self.secret() is None,
            },
    {
        match self.keys_for_poll(poll_id) {
            Some(keys) => Some(*keys.public()),
            None => None,
        }
    }
}

} // verus!

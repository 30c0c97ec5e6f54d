//! Secrets dialog: what the dialog decides while the master secret is created
//! or unlocked with a password.

use crate::poll::SecretManagerStatus;
use vstd::prelude::*;

verus! {

pub enum SecretsMessage {
    Created,
    Unlocked,
    /// The password was refused, with the given reason.
    ErrorUnlocking(String),
    /// The dialog was submitted with the given password.
    Submitted { new_secret: bool, password: String },
}

/// What is to be done once the dialog has taken a message in.
#[derive(Debug, PartialEq, Eq)]
pub enum SecretsAction {
    /// The dialog is to be shown again.
    Render,
    /// The dialog is to be closed.
    Close,
    /// A new master secret is to be drawn and sealed with the password.
    Seal(String),
    /// The stored master secret is to be opened with the password.
    Open(String),
}

/// Secrets dialog.
#[derive(Debug, PartialEq, Eq)]
pub struct Secrets {
    pub in_progress: bool,
    pub new_secret: bool,
    pub err: Option<String>,
}

impl Secrets {
    /// The dialog for the master secret with the status `status`: a secret
    /// that is stored and locked is to be unlocked, any other is to be made
    /// anew.
    pub fn create(status: Option<SecretManagerStatus>) -> (dialog: Self)
        ensures
            dialog == (Secrets {
                in_progress: false,
                new_secret: status != Some(SecretManagerStatus::Locked),
                err: None,
            }),
    {
        let new_secret = match status {
            Some(SecretManagerStatus::Locked) => false,
            _ => true,
        };
        Secrets { new_secret, in_progress: false, err: None }
    }

    /// Takes `message` in and says what is to be done next.
    pub fn update(&mut self, message: SecretsMessage) -> (action: SecretsAction)
        ensures
            final(self).new_secret == old(self).new_secret,
            match message {
                SecretsMessage::Submitted { new_secret, password } => {
                    &&& action == (if new_secret {
                        SecretsAction::Seal(password)
                    } else {
                        SecretsAction::Open(password)
                    })
                    &&& final(self).in_progress
                    &&& final(self).err == old(self).err
                },
                SecretsMessage::Created | SecretsMessage::Unlocked => {
                    &&& action == SecretsAction::Close
                    &&& !final(self).in_progress
                    &&& final(self).err is None
                },
                SecretsMessage::ErrorUnlocking(err) => {
                    &&& action == SecretsAction::Render
                    &&& !final(self).in_progress
                    &&& final(self).err == Some(err)
                },
            },
    {
        match message {
            SecretsMessage::Submitted { new_secret, password } => {
                self.in_progress = true;
                if new_secret {
                    SecretsAction::Seal(password)
                } else {
                    SecretsAction::Open(password)
                }
            },
            SecretsMessage::Created | SecretsMessage::Unlocked => {
                self.in_progress = false;
                self.err = None;
                SecretsAction::Close
            },
            SecretsMessage::ErrorUnlocking(err) => {
                self.in_progress = false;
                self.err = Some(err);
                SecretsAction::Render
            },
        }
    }
}

} // verus!

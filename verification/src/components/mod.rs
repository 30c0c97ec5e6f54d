//! What the pages of the application decide, apart from how they are shown.

pub mod app;
pub mod common;
pub mod home;
pub mod new_poll;
pub mod participants;
pub mod secrets;
pub mod tallying;
pub mod voting;

pub use self::app::{App, AppAction, AppMessage};
pub use self::common::{PendingRemovals, RemovalMessage, Route, ValidatedValue};
pub use self::home::{Home, HomeAction, HomeMessage};
pub use self::new_poll::{NewPoll, NewPollAction, NewPollMessage};
pub use self::participants::{Participants, ParticipantsAction, ParticipantsMessage};
pub use self::secrets::{Secrets, SecretsAction, SecretsMessage};
pub use self::tallying::{Tallying, TallyingAction, TallyingMessage};
pub use self::voting::{Voting, VotingAction, VotingMessage};

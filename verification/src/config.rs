//! The configuration of the feed: made once at startup and handed to every
//! part that needs it.

use vstd::prelude::*;

verus! {

/// What the feed is configured with.
#[derive(Clone, Debug, PartialEq, Eq)]
pub struct FeedConfig {
    /// The credential for the upstream feed. Where it is missing, the
    /// operations that need it fail one by one; startup does not.
    pub credential: Option<String>,
    /// The dataset to read from.
    pub dataset: String,
    /// The address of the downstream consumer.
    pub relay_url: String,
}

/// A `FeedConfig` with its texts as sequences of characters.
pub struct FeedConfigView {
    pub credential: Option<Seq<char>>,
    pub dataset: Seq<char>,
    pub relay_url: Seq<char>,
}

impl View for FeedConfig {
    type V = FeedConfigView;

    open spec fn view(&self) -> FeedConfigView {
        FeedConfigView {
            credential: match self.credential {
                Some(text) => Some(text@),
                None => None,
            },
            dataset: self.dataset@,
            relay_url: self.relay_url@,
        }
    }
}

/// The dataset that is read where none is configured.
pub open spec fn default_dataset() -> Seq<char> {
    "EQUS.MINI"@
}

/// The address of the consumer where none is configured: the local host.
pub open spec fn default_relay_url() -> Seq<char> {
    "ws://localhost:3000/ws"@
}

impl FeedConfig {
    /// The configuration for the options as they were found: a dataset or
    /// an address that was not given takes its default.
    pub fn from_options(
        credential: Option<String>,
        dataset: Option<String>,
        relay_url: Option<String>,
    ) -> (r: FeedConfig)
        ensures
            r.credential == credential,
            r.dataset@ == match dataset {
                Some(text) => text@,
                None => default_dataset(),
            },
            r.relay_url@ == match relay_url {
                Some(text) => text@,
                None => default_relay_url(),
            },
    {
        FeedConfig {
            credential,
            dataset: match dataset {
                Some(text) => text,
                None => "EQUS.MINI".to_string(),
            },
            relay_url: match relay_url {
                Some(text) => text,
                None => "ws://localhost:3000/ws".to_string(),
            },
        }
    }

    /// Whether a credential is configured.
    pub fn has_credential(&self) -> (r: bool)
        ensures
            r == self.credential is Some,
    {
        self.credential.is_some()
    }
}

} // verus!

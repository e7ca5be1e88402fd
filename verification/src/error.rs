//! The ways a request can fail, and what the user is told of each.

use vstd::prelude::*;

verus! {

/// A failure of the cache layer or of the remote layer.
#[derive(Debug, PartialEq, Eq)]
pub enum Failure {
    /// A stored record is empty or cannot be parsed. The operator has to
    /// clear the cache; the record is never taken for a miss.
    CacheCorrupted,
    /// A record could not be written under `key`. The request goes on: the
    /// next one fetches again.
    CachePersistFailed { key: String },
    /// The remote source rejected the request, with this message.
    RemoteRejected(String),
    /// The remote source could not be reached, or what it answered
    /// could not be read, for this reason. No data is available.
    RemoteUnreachableOrMalformed(String),
    /// No rate from `source` to `target` could be resolved.
    UnresolvedTarget { source: String, target: String },
    /// The credential is empty.
    InvalidCredential,
}

/// What the user is told of `failure`.
pub open spec fn message_text(failure: Failure) -> Seq<char> {
    match failure {
        Failure::CacheCorrupted =>
            "Failed to parse cached data. Please clear .teonite/cache folder."@,
        Failure::CachePersistFailed { key } => "Failed to cache exchange rates: '\""@ + key@
            + "\"'"@,
        Failure::RemoteRejected(message) => message@,
        Failure::RemoteUnreachableOrMalformed(cause) => cause@,
        Failure::UnresolvedTarget { source, target } => "Cannot exchange: '"@ + source@ + "' - '"@
            + target@ + "'"@,
        Failure::InvalidCredential =>
            "Invalid API key, please provide valid API_KEY enviroment variable"@,
    }
}

impl Failure {
    /// Whether the failure reaches the user. A failure of the cache layer
    /// does so only where it tells of corruption; every failure of the remote
    /// layer does, and so do a missing rate and an empty credential.
    pub fn escalates(&self) -> (reaches_user: bool)
        ensures
            reaches_user == !(self is CachePersistFailed),
    {
        match self {
            Failure::CachePersistFailed { .. } => false,
            _ => true,
        }
    }

    /// What the user is told of the failure.
    pub fn message(&self) -> (text: String)
        ensures
            text@ == message_text(*self),
    {
        match self {
            Failure::CacheCorrupted => {
                "Failed to parse cached data. Please clear .teonite/cache folder.".to_owned()
            },
            Failure::CachePersistFailed { key } => {
                let mut text = "Failed to cache exchange rates: '\"".to_owned();
                text.append(key.as_str());
                text.append("\"'");
                text
            },
            Failure::RemoteRejected(message) => message.clone(),
            Failure::RemoteUnreachableOrMalformed(cause) => cause.clone(),
            Failure::UnresolvedTarget { source, target } => {
                let mut text = "Cannot exchange: '".to_owned();
                text.append(source.as_str());
                text.append("' - '");
                text.append(target.as_str());
                text.append("'");
                text
            },
            Failure::InvalidCredential => {
                "Invalid API key, please provide valid API_KEY enviroment variable".to_owned()
            },
        }
    }
}

} // verus!

//! What the library knows of SSH: where a connection points, and how one fails.
use vstd::prelude::*;

verus! {

/// The kinds of failure that the SSH transport tells apart.
#[derive(Clone, Copy, Debug, PartialEq, Eq, Structural)]
pub enum Kind {
    Transport,
    Timeout,
    Authentication,
    UnknownHostKey,
    ChangedHostKey,
    Configuration,
}

/// Where a connection points and how it authenticates.
#[derive(Clone, Debug)]
pub struct Options {
    pub host: String,
    pub port: u16,
    pub user: String,
    pub known_hosts: String,
    pub identities: Vec<String>,
    pub agent: bool,
    pub identities_only: bool,
    pub host_key_alias: Option<String>,
    pub timeout_secs: u64,
    pub jumps: Vec<String>,
}

/// A failure of the SSH transport.
#[derive(Clone, Debug)]
pub struct Error {
    pub kind: Kind,
    pub message: String,
}

impl Error {
    pub fn new(kind: Kind, message: &str) -> (r: Self)
        ensures
            r.kind == kind,
            r.message@ == message@,
    {
        Error { kind, message: message.to_owned() }
    }

    /// A deadline that passed.
    pub fn timeout(message: &str) -> (r: Self)
        ensures
            r.kind == Kind::Timeout,
            r.message@ == message@,
    {
        Self::new(Kind::Timeout, message)
    }

    /// A channel that ended.
    pub fn transport(message: &str) -> (r: Self)
        ensures
            r.kind == Kind::Transport,
            r.message@ == message@,
    {
        Self::new(Kind::Transport, message)
    }
}

} // verus!

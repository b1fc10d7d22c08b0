//! Log domains and levels, and their numbers in the engine.
use vstd::prelude::*;

verus! {

/// The subsystems that write log messages.
#[derive(Clone, Copy, Debug, PartialEq, Eq, Structural)]
pub enum Domain {
    All,
    Database,
    Query,
    Replicator,
    Network,
}

/// Levels of log messages; each is more severe than the one before.
#[derive(Clone, Copy, Debug, PartialEq, Eq, Structural)]
pub enum Level {
    Debug,
    Verbose,
    Info,
    Warning,
    Error,
    /// Nothing is logged.
    Off,
}

impl Domain {
    /// The engine's number for each domain, 0 to 4 in order.
    pub open spec fn spec_code(self) -> u8 {
        match self {
            Domain::All => 0,
            Domain::Database => 1,
            Domain::Query => 2,
            Domain::Replicator => 3,
            Domain::Network => 4,
        }
    }

    /// The engine's number for this domain.
    pub fn code(&self) -> (r: u8)
        ensures
            r == self.spec_code(),
    {
        match self {
            Domain::All => 0,
            Domain::Database => 1,
            Domain::Query => 2,
            Domain::Replicator => 3,
            Domain::Network => 4,
        }
    }

    /// The domain with the given number, if there is one.
    pub fn from_u8(code: u8) -> (r: Option<Domain>)
        ensures
            r is Some <==> code <= 4,
            r matches Some(d) ==> d.spec_code() == code,
    {
        match code {
            0 => Some(Domain::All),
            1 => Some(Domain::Database),
            2 => Some(Domain::Query),
            3 => Some(Domain::Replicator),
            4 => Some(Domain::Network),
            _ => None,
        }
    }
}

impl Level {
    /// The engine's number for each level, 0 to 5 in order of severity.
    pub open spec fn spec_code(self) -> u8 {
        match self {
            Level::Debug => 0,
            Level::Verbose => 1,
            Level::Info => 2,
            Level::Warning => 3,
            Level::Error => 4,
            Level::Off => 5,
        }
    }

    /// The engine's number for this level.
    pub fn code(&self) -> (r: u8)
        ensures
            r == self.spec_code(),
    {
        match self {
            Level::Debug => 0,
            Level::Verbose => 1,
            Level::Info => 2,
            Level::Warning => 3,
            Level::Error => 4,
            Level::Off => 5,
        }
    }

    /// The level with the given number, if there is one.
    pub fn from_u8(code: u8) -> (r: Option<Level>)
        ensures
            r is Some <==> code <= 5,
            r matches Some(l) ==> l.spec_code() == code,
    {
        match code {
            0 => Some(Level::Debug),
            1 => Some(Level::Verbose),
            2 => Some(Level::Info),
            3 => Some(Level::Warning),
            4 => Some(Level::Error),
            5 => Some(Level::Off),
            _ => None,
        }
    }
}

} // verus!

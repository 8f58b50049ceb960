//! Process configuration: the storage location and the logging verbosity.

use vstd::prelude::*;

verus! {

/// A logging verbosity level, 0 (off) through 5 (trace).
#[derive(Debug, Clone, Copy, PartialEq, Eq, Structural)]
pub struct Verbosity(pub u8);

impl Verbosity {
    /// Whether the level is one of the six defined ones.
    pub open spec fn wf(self) -> bool {
        self.0 <= 5
    }

    /// The numeric level.
    pub fn level(&self) -> (r: u8)
        ensures
            r == self.0,
    {
        self.0
    }

    /// Validates a numeric level: `Some` exactly for 0 through 5.
    pub fn from_level(value: u8) -> (r: Option<Verbosity>)
        ensures
            r is Some <==> value <= 5,
            r is Some ==> r->0 == Verbosity(value) && r->0.wf(),
    {
        if value <= 5 {
            Some(Verbosity(value))
        } else {
            None
        }
    }
}

/// Runtime configuration: the database location and the verbosity level.
#[derive(Debug)]
pub struct Config {
    pub database: String,
    pub verbosity_level: u8,
}

impl Config {
    pub fn new(database: String, verbosity_level: u8) -> (c: Config)
        ensures
            c.database == database,
            c.verbosity_level == verbosity_level,
    {
        Config { database, verbosity_level }
    }

    /// The configured storage location.
    pub fn db_url(&self) -> (r: &str)
        ensures
            r@ == self.database@,
    {
        self.database.as_str()
    }

    /// The configured verbosity. Levels above 5 are rejected when the
    /// configuration is read in; this accessor demands a valid level.
    pub fn verbosity(&self) -> (v: Verbosity)
        requires
            self.verbosity_level <= 5,
        ensures
            v == Verbosity(self.verbosity_level),
            v.wf(),
    {
        Verbosity(self.verbosity_level)
    }
}

} // verus!

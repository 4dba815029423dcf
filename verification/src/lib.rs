//! Screen colour temperature scheduling: the time-of-day ring of temperature
//! blocks, the choice of the block that is active at an instant, and the
//! decisions of the daemon that applies it every minute.

use vstd::prelude::*;
use vstd::std_specs::convert::{FromSpecImpl, TryFromSpec, TryFromSpecImpl};
use crate::text::{decimal, digits_of, lemma_digits_round_trip, parse_u32, parsed_u32};

pub mod backends;
pub mod cli;
pub mod config;
pub mod daemon;
pub mod lifecycle;
pub mod loading;
pub mod ring;
pub mod sorting;
pub mod state;
pub mod text;
pub mod time;
pub mod utils;

verus! {

/// A value that is kept in a state file of its own, under this file name.
pub trait StateFileName {
    /// The file name, as a sequence of characters.
    spec fn file_name() -> Seq<char>;

    fn name() -> (name: String)
        ensures
            name@ == Self::file_name(),
    ;
}

/// Why a text is not the value it should be.
#[derive(Clone, Copy, Debug, PartialEq, Eq, Structural)]
pub enum ParseError {
    /// The text is not a process id.
    InvalidPid,
    /// The text names no mode.
    NoSuchMode,
    /// The text names no backend.
    InvalidBackend,
}

impl ParseError {
    /// What is wrong, in words.
    pub open spec fn text(&self) -> Seq<char> {
        match self {
            ParseError::InvalidPid => "Invalid process id"@,
            ParseError::NoSuchMode => "No such mode"@,
            ParseError::InvalidBackend => "Invalid backend"@,
        }
    }

    /// What is wrong, in words.
    pub fn message(&self) -> (message: String)
        ensures
            message@ == self.text(),
    {
        match self {
            ParseError::InvalidPid => "Invalid process id".to_owned(),
            ParseError::NoSuchMode => "No such mode".to_owned(),
            ParseError::InvalidBackend => "Invalid backend".to_owned(),
        }
    }
}

/// The process id of a daemon instance.
#[derive(Clone, Copy, Debug, PartialEq, Eq, Structural)]
pub struct Pid(pub u32);

impl Pid {
    /// The process id as a number.
    pub fn as_u32(&self) -> (id: u32)
        ensures
            id == self.0,
    {
        self.0
    }

    /// The process id as it is kept in its state file: in base ten.
    pub fn to_text(&self) -> (text: String)
        ensures
            text@ == digits_of(self.0 as nat),
    {
        decimal(self.0)
    }
}

impl From<u32> for Pid {
    fn from(value: u32) -> (pid: Pid) {
        Pid(value)
    }
}

impl FromSpecImpl<u32> for Pid {
    open spec fn obeys_from_spec() -> bool {
        true
    }

    open spec fn from_spec(value: u32) -> Pid {
        Pid(value)
    }
}

impl TryFrom<String> for Pid {
    type Error = ParseError;

    /// Reads a process id from the text of its state file.
    fn try_from(value: String) -> (pid: Result<Pid, ParseError>) {
        match parse_u32(value.as_str()) {
            Some(id) => Ok(Pid(id)),
            None => Err(ParseError::InvalidPid),
        }
    }
}

impl TryFromSpecImpl<String> for Pid {
    open spec fn obeys_try_from_spec() -> bool {
        true
    }

    open spec fn try_from_spec(value: String) -> Result<Pid, ParseError> {
        match parsed_u32(value@) {
            Some(id) => Ok(Pid(id)),
            None => Err(ParseError::InvalidPid),
        }
    }
}

/// Reading a process id back from the text it is kept as gives the process
/// id.
pub proof fn lemma_pid_round_trip(pid: Pid, text: String)
    requires
        text@ == digits_of(pid.0 as nat),
    ensures
        <Pid as TryFromSpec<String>>::try_from_spec(text) == Ok::<Pid, ParseError>(pid),
{
    lemma_digits_round_trip(pid.0 as nat);
}

impl StateFileName for Pid {
    open spec fn file_name() -> Seq<char> {
        "pid"@
    }

    fn name() -> (name: String) {
        "pid".to_owned()
    }
}

} // verus!

//! Colour temperatures and the display backends they are applied through.

use vstd::prelude::*;
use vstd::std_specs::convert::TryFromSpecImpl;
use crate::text::{decimal, digits_of, equals_ignoring_case, same_ignoring_case};
use crate::{ParseError, StateFileName};

verus! {

/// A colour temperature in whole kelvin.
#[derive(Clone, Copy, Debug, PartialEq, Eq, Structural)]
pub struct Temperature(pub u32);

impl Temperature {
    /// The temperature of so many kelvin.
    pub fn new(value: u32) -> (temperature: Temperature)
        ensures
            temperature == Temperature(value),
    {
        Temperature(value)
    }

    /// The temperature in kelvin.
    pub fn as_u32(&self) -> (kelvin: u32)
        ensures
            kelvin == self.0,
    {
        self.0
    }
}

impl Temperature {
    /// The temperature as it is kept in its state file: its kelvin in base
    /// ten.
    pub fn to_text(&self) -> (text: String)
        ensures
            text@ == digits_of(self.0 as nat),
    {
        decimal(self.0)
    }
}

impl StateFileName for Temperature {
    open spec fn file_name() -> Seq<char> {
        "temperature"@
    }

    fn name() -> (name: String) {
        "temperature".to_owned()
    }
}

/// The terminal palette backend.
#[derive(Clone, Copy, Debug, PartialEq, Eq, Structural)]
pub struct TTY;

/// The X11 gamma ramp backend.
#[derive(Clone, Copy, Debug, PartialEq, Eq, Structural)]
pub struct X11;

/// The display backend a temperature is applied through.
#[derive(Clone, Copy, Debug, PartialEq, Eq, Structural)]
pub enum Backend {
    Tty,
    X11,
}

impl Default for Backend {
    fn default() -> (backend: Backend)
        ensures
            backend == Backend::X11,
    {
        Backend::X11
    }
}

impl Backend {
    /// The backend that a name stands for: `tty` or `x11`, in small or
    /// capital letters.
    pub open spec fn named(name: Seq<char>) -> Result<Backend, ParseError> {
        if same_ignoring_case(name, "tty"@) {
            Ok(Backend::Tty)
        } else if same_ignoring_case(name, "x11"@) {
            Ok(Backend::X11)
        } else {
            Err(ParseError::InvalidBackend)
        }
    }
}

impl<'a> TryFrom<&'a str> for Backend {
    type Error = ParseError;

    fn try_from(value: &'a str) -> (backend: Result<Backend, ParseError>) {
        if equals_ignoring_case(value, "tty") {
            Ok(Backend::Tty)
        } else if equals_ignoring_case(value, "x11") {
            Ok(Backend::X11)
        } else {
            Err(ParseError::InvalidBackend)
        }
    }
}

impl<'a> TryFromSpecImpl<&'a str> for Backend {
    open spec fn obeys_try_from_spec() -> bool {
        true
    }

    open spec fn try_from_spec(value: &'a str) -> Result<Backend, ParseError> {
        Backend::named(value@)
    }
}

/// The backend of the given name.
pub fn get_backend_from_str(name: &str) -> (backend: Result<Backend, ParseError>)
    ensures
        backend == Backend::named(name@),
{
    Backend::try_from(name)
}

} // verus!

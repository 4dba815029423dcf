//! Values kept in state files: reading one back from the text of its file.

use vstd::prelude::*;
use vstd::std_specs::convert::TryFromSpec;

verus! {

/// The value that the content of a state file stands for: none where the
/// file is missing, and none where its text is not a value.
pub open spec fn kept<T: TryFrom<String>>(content: Option<String>) -> Option<T> {
    match content {
        Some(text) => match T::try_from_spec(text) {
            Ok(value) => Some(value),
            Err(_) => None,
        },
        None => None,
    }
}

/// Reads a value back from the content of its state file, where `None`
/// stands for a missing file. A text that is not a value counts as
/// missing, so that the caller falls back to its default.
pub fn read<T: TryFrom<String>>(content: Option<String>) -> (value: Option<T>)
    ensures
        T::obeys_try_from_spec() ==> value == kept::<T>(content),
{
    match content {
        Some(text) => match T::try_from(text) {
            Ok(value) => Some(value),
            Err(_) => None,
        },
        None => None,
    }
}

} // verus!

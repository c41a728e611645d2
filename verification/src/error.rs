//! What can go wrong.

use vstd::prelude::*;

verus! {

/// The ways in which the window manager can fail.
#[derive(Debug)]
pub enum KoanWMError {
    /// No display server could be reached.
    DisplayNotFound,
    /// The display has no screen.
    ScreenNotFound,
    /// Anything else, with a description.
    GenericError(String),
}

impl KoanWMError {
    /// The text of the error, as characters.
    pub open spec fn message_spec(self) -> Seq<char> {
        match self {
            KoanWMError::DisplayNotFound => "display not found"@,
            KoanWMError::ScreenNotFound => "screen not found"@,
            KoanWMError::GenericError(_) => "generic error"@,
        }
    }

    /// The text of the error.
    pub fn message(&self) -> (text: String)
        ensures
            text@ == self.message_spec(),
    {
        match self {
            KoanWMError::DisplayNotFound => "display not found".to_string(),
            KoanWMError::ScreenNotFound => "screen not found".to_string(),
            KoanWMError::GenericError(_) => "generic error".to_string(),
        }
    }
}

} // verus!

//! Vocabulary of the entry form's text inputs.

use vstd::prelude::*;

verus! {

/// What an input holds: plain text, or a password that is not shown.
#[derive(Debug, Clone, Copy, PartialEq, Eq, Structural)]
pub enum InputType {
    Text,
    Password,
}

/// Which keyboard an input asks for.
#[derive(Debug, Clone, Copy, PartialEq, Eq, Structural)]
pub enum InputMode {
    Text,
    Numeric,
}

impl InputType {
    /// The value of the HTML `type` attribute.
    pub fn as_str(&self) -> (r: &'static str)
        ensures
            r@ == (match self {
                InputType::Text => "text"@,
                InputType::Password => "password"@,
            }),
    {
        match self {
            InputType::Text => "text",
            InputType::Password => "password",
        }
    }
}

impl InputMode {
    /// The value of the HTML `inputmode` attribute.
    pub fn as_str(&self) -> (r: &'static str)
        ensures
            r@ == (match self {
                InputMode::Text => "text"@,
                InputMode::Numeric => "numeric"@,
            }),
    {
        match self {
            InputMode::Text => "text",
            InputMode::Numeric => "numeric",
        }
    }
}

} // verus!

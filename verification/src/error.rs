//! Errors reported by operations on a Neovim connection.
use vstd::prelude::*;

use crate::text::concat2;

verus! {

/// An error of an operation on a Neovim instance.
#[derive(Debug, Clone, PartialEq, Eq)]
pub enum NeovimError {
    /// The connection is missing, already present, or could not be made.
    Connection(String),
    /// Neovim, or the Lua code it ran, reported a failure.
    Api(String),
}

/// The human-readable form of an error.
pub open spec fn neovim_error_text(e: NeovimError) -> Seq<char> {
    match e {
        NeovimError::Connection(msg) => "Connection error: "@ + msg@,
        NeovimError::Api(msg) => "Neovim API error: "@ + msg@,
    }
}

impl NeovimError {
    /// The human-readable form of the error.
    pub fn to_display_string(&self) -> (res: String)
        ensures
            res@ == neovim_error_text(*self),
    {
        match self {
            NeovimError::Connection(msg) => concat2("Connection error: ", msg.as_str()),
            NeovimError::Api(msg) => concat2("Neovim API error: ", msg.as_str()),
        }
    }

    /// The message the error carries.
    pub fn message(&self) -> (res: &String)
        ensures
            *res == match *self {
                NeovimError::Connection(msg) => msg,
                NeovimError::Api(msg) => msg,
            },
    {
        match self {
            NeovimError::Connection(msg) => msg,
            NeovimError::Api(msg) => msg,
        }
    }
}

} // verus!

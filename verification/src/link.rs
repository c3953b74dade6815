//! The errors of whatever carries frames between this host and a charger.
//!
//! The client speaks in whole frames and knows nothing about Bluetooth; a
//! carrier deals in the frame `DATA` field and reports failures as a
//! [`LinkError`].

use vstd::prelude::*;

use crate::frame::{frame_error_message, FrameError};

verus! {

/// Something that went wrong carrying a frame.
#[derive(Debug, Clone, PartialEq, Eq)]
pub enum LinkError {
    /// The link is gone and will not carry anything else.
    Closed,
    /// The frame could not be built.
    Frame(FrameError),
    /// The transport failed for a reason of its own, as it described it.
    Transport(String),
}

/// What a [`LinkError`] says.
pub open spec fn link_error_message(e: LinkError) -> Seq<char> {
    match e {
        LinkError::Closed => "the link to the charger is closed"@,
        LinkError::Frame(f) => frame_error_message(f),
        LinkError::Transport(m) => m@,
    }
}

impl LinkError {
    /// Wraps a transport's own error, given as the text it reports.
    pub fn transport(message: String) -> (r: LinkError)
        ensures
            r == LinkError::Transport(message),
    {
        LinkError::Transport(message)
    }

    /// The message this error reports.
    pub fn message(&self) -> (r: String)
        ensures
            r@ == link_error_message(*self),
    {
        match self {
            LinkError::Closed => crate::text::string_of("the link to the charger is closed"),
            LinkError::Frame(f) => f.message(),
            LinkError::Transport(m) => m.clone(),
        }
    }
}

} // verus!

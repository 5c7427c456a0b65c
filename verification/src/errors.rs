//! The failures a lookup can end in.

use vstd::prelude::*;

verus! {

/// Why a lookup, or a part of it, failed. "No answer" is no failure: it is
/// an empty result.
#[derive(Clone, Copy, Debug, PartialEq, Eq, Structural)]
pub enum Error {
    /// The name, alone or with a search suffix, is no valid domain name.
    NameParse,
    /// The buffer of a query message could not be set up. A buffer that
    /// grows, as the one in use here, always can be.
    AppendError,
    /// The question or the OPT record did not go into the query message.
    /// Into a buffer that grows, both always go.
    PushError,
    /// The sockets failed for good: nothing could be sent or connected.
    Transport,
}

impl Error {
    /// A short description, for messages.
    pub fn describe(&self) -> (text: &'static str)
        ensures
            text@ == match *self {
                Error::NameParse => "invalid domain name"@,
                Error::AppendError => "message buffer could not be initialised"@,
                Error::PushError => "message section could not be appended"@,
                Error::Transport => "transport failure"@,
            },
    {
        match self {
            Error::NameParse => "invalid domain name",
            Error::AppendError => "message buffer could not be initialised",
            Error::PushError => "message section could not be appended",
            Error::Transport => "transport failure",
        }
    }
}

} // verus!

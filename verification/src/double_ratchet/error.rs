//! What can go wrong in a session.
use vstd::prelude::*;
use vstd::string::StringExecFns;

verus! {

#[derive(Debug, Clone, Copy, PartialEq, Eq)]
pub enum DoubleRatchetError {
    NoSendingChain,
    ChainNotFound,
    SessionNotFound,
    MaxSkipExceeded,
    InvalidHeader,
    ChainInitFailed,
}

impl DoubleRatchetError {
    /// The error in words.
    pub open spec fn message(self) -> Seq<char> {
        match self {
            Self::NoSendingChain => "Uninitialized sending chain"@,
            Self::ChainNotFound => "Chain not found"@,
            Self::SessionNotFound => "Session not found"@,
            Self::MaxSkipExceeded => "Message count exceeds MAX_SKIP threshold"@,
            Self::InvalidHeader => "Invalid header"@,
            Self::ChainInitFailed => "Failed chain init"@,
        }
    }

    pub fn to_string(&self) -> (r: String)
        ensures
            r@ == self.message(),
            *self is NoSendingChain ==> r@ == "Uninitialized sending chain"@,
            *self is ChainNotFound ==> r@ == "Chain not found"@,
            *self is SessionNotFound ==> r@ == "Session not found"@,
            *self is MaxSkipExceeded ==> r@ == "Message count exceeds MAX_SKIP threshold"@,
            *self is InvalidHeader ==> r@ == "Invalid header"@,
            *self is ChainInitFailed ==> r@ == "Failed chain init"@,
    {
        match self {
            Self::NoSendingChain => String::from_str("Uninitialized sending chain"),
            Self::ChainNotFound => String::from_str("Chain not found"),
            Self::SessionNotFound => String::from_str("Session not found"),
            Self::MaxSkipExceeded => String::from_str("Message count exceeds MAX_SKIP threshold"),
            Self::InvalidHeader => String::from_str("Invalid header"),
            Self::ChainInitFailed => String::from_str("Failed chain init"),
        }
    }
}

/// Different errors read differently.
pub proof fn law_errors_read_differently(a: DoubleRatchetError, b: DoubleRatchetError)
    requires
        a.message() == b.message(),
    ensures
        a == b,
{
    reveal_strlit("Uninitialized sending chain");
    reveal_strlit("Chain not found");
    reveal_strlit("Session not found");
    reveal_strlit("Message count exceeds MAX_SKIP threshold");
    reveal_strlit("Invalid header");
    reveal_strlit("Failed chain init");
    assert("Uninitialized sending chain"@.len() == 27);
    assert("Chain not found"@.len() == 15);
    assert("Session not found"@.len() == 17);
    assert("Message count exceeds MAX_SKIP threshold"@.len() == 40);
    assert("Invalid header"@.len() == 14);
    assert("Failed chain init"@.len() == 17);
    assert("Session not found"@[0] == 'S');
    assert("Failed chain init"@[0] == 'F');
}

/// An error in words tells what went wrong.
pub proof fn law_words_of_an_error(error: &DoubleRatchetError, words: String)
    requires
        call_ensures(DoubleRatchetError::to_string, (error,), words),
    ensures
        words@ == match *error {
            DoubleRatchetError::NoSendingChain => "Uninitialized sending chain"@,
            DoubleRatchetError::ChainNotFound => "Chain not found"@,
            DoubleRatchetError::SessionNotFound => "Session not found"@,
            DoubleRatchetError::MaxSkipExceeded => "Message count exceeds MAX_SKIP threshold"@,
            DoubleRatchetError::InvalidHeader => "Invalid header"@,
            DoubleRatchetError::ChainInitFailed => "Failed chain init"@,
        },
{
}

} // verus!

//! What can go wrong in a key agreement.
use vstd::prelude::*;
use vstd::string::StringExecFns;

verus! {

#[derive(Debug, Clone, Copy, PartialEq, Eq)]
pub enum KeyExchangeError {
    VerificationError,
    PreKeyNotFound,
}

impl KeyExchangeError {
    /// The error in words.
    pub open spec fn message(self) -> Seq<char> {
        match self {
            Self::VerificationError => "Error validating PreKey signature"@,
            Self::PreKeyNotFound => "The requested PreKey was not found in the keystore"@,
        }
    }

    pub fn to_string(&self) -> (r: String)
        ensures
            r@ == self.message(),
            *self is VerificationError ==> r@ == "Error validating PreKey signature"@,
            *self is PreKeyNotFound ==> r@ == "The requested PreKey was not found in the keystore"@,
    {
        match self {
            Self::VerificationError => String::from_str("Error validating PreKey signature"),
            Self::PreKeyNotFound => String::from_str(
                "The requested PreKey was not found in the keystore",
            ),
        }
    }
}

/// Different errors read differently.
pub proof fn law_errors_read_differently(a: KeyExchangeError, b: KeyExchangeError)
    requires
        a.message() == b.message(),
    ensures
        a == b,
{
    reveal_strlit("Error validating PreKey signature");
    reveal_strlit("The requested PreKey was not found in the keystore");
    assert("Error validating PreKey signature"@.len() == 33);
    assert("The requested PreKey was not found in the keystore"@.len() == 50);
}

/// An error in words tells what went wrong.
pub proof fn law_words_of_an_error(error: &KeyExchangeError, words: String)
    requires
        call_ensures(KeyExchangeError::to_string, (error,), words),
    ensures
        words@ == match *error {
            KeyExchangeError::VerificationError => "Error validating PreKey signature"@,
            KeyExchangeError::PreKeyNotFound =>
                "The requested PreKey was not found in the keystore"@,
        },
{
}

} // verus!

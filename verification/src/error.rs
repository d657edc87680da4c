//! What stops an identification, in words.

use vstd::prelude::*;

verus! {

/// Why a credential could not be read.
#[derive(Clone, Debug)]
pub struct IdentifyError {
    pub message: String,
}

impl IdentifyError {
    /// The error that says `message`.
    pub fn new(message: &str) -> (error: Self)
        ensures
            error.message@ == message@,
    {
        IdentifyError { message: message.to_owned() }
    }

    /// The error that says `before`, `name` and `after` in one sentence.
    pub fn naming(before: &str, name: &str, after: &str) -> (error: Self)
        ensures
            error.message@ == before@ + name@ + after@,
    {
        let mut message = before.to_owned();
        message.append(name);
        message.append(after);
        IdentifyError { message }
    }
}

/// A result as a value of the model: what was read, or the words that say
/// why it could not be.
pub open spec fn outcome<T: DeepView>(result: Result<T, IdentifyError>) -> Result<
    T::V,
    Seq<char>,
> {
    match result {
        Ok(value) => Ok(value.deep_view()),
        Err(error) => Err(error.message@),
    }
}

} // verus!

//! The codec's error.
use vstd::prelude::*;
use vstd::string::*;

verus! {

/// An error of the framing codec, with a description.
#[derive(Debug, Clone)]
pub struct CodecError {
    message: String,
}

impl CodecError {
    pub closed spec fn spec_message(&self) -> Seq<char> {
        self.message@
    }

    pub fn new(message: &str) -> (r: CodecError)
        ensures
            r.spec_message() == message@,
    {
        CodecError { message: String::from_str(message) }
    }

    /// The description the error was made with.
    pub fn message(&self) -> (r: String)
        ensures
            r@ == self.spec_message(),
    {
        self.message.clone()
    }

    /// The error as text: `message codec error: ` and the description.
    pub fn to_string(&self) -> (r: String)
        ensures
            r@ == "message codec error: "@ + self.spec_message(),
    {
        let prefix = String::from_str("message codec error: ");
        prefix.concat(self.message.as_str())
    }
}

} // verus!

//! Failures that can be told to a caller in words.

use vstd::prelude::*;

verus! {

/// A failure with a message for people to read. An aggregate keeps the message
/// of each failure it absorbs as a warning.
pub trait Fail {
    /// The text of the message.
    spec fn message(&self) -> Seq<char>;

    /// Writes the message out.
    fn to_string(&self) -> (text: String)
        ensures
            text@ == self.message(),
    ;
}

} // verus!

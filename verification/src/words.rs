//! The words of outside errors.

use vstd::prelude::*;
use vstd::string::*;

verus! {

/// An I/O error of std, which outside code also uses for bytes that it cannot read or write.
#[verifier::external_type_specification]
#[verifier::external_body]
pub struct ExIoError(std::io::Error);

/// Whether an error says `words`: they are the text that its `to_string` gives.
pub open spec fn says(error: std::io::Error, words: Seq<char>) -> bool {
    forall|text: String| #[trigger]
        to_string_from_display_ensures(&error, text) ==> text@ == words
}

} // verus!

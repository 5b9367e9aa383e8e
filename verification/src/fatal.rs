//! The user-visible fatal-error path.

use vstd::prelude::*;

verus! {

/// A fatal error whose message is meant for the user's eyes: shown on the
/// popup's error screen, or printed to stderr in headless and `open` modes.
/// Always followed by exit status 1.
#[derive(Debug)]
pub struct Fatal(pub String);

impl Fatal {
    pub fn new(message: &str) -> (r: Fatal)
        ensures
            r.0@ == message@,
    {
        Fatal(message.to_owned())
    }
}

} // verus!

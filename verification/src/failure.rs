//! What it leads to that something cannot be done.

use vstd::prelude::*;

verus! {

/// What a thing that cannot be done leads to.
#[derive(Debug, PartialEq, Eq)]
pub enum Failure {
    /// Going on with what comes next.
    PassOver,
    /// A panic.
    Panic,
    /// An error with these words put before it, and behind the words, where
    /// one is given, a colon and the directory in quotes.
    Stop { words: &'static str, directory: Option<String> },
}

} // verus!

//! What a tool that arms something answers: words, and what came of it.

use vstd::prelude::*;

verus! {

/// What came of arming.
#[derive(Debug, Clone, Copy, PartialEq, Eq, Structural)]
pub enum Outcome {
    Armed,
    /// The class is not loaded yet.
    Deferred,
}

/// An answer. What came of the call is said by `outcome` and never read out of the words.
#[derive(Debug, Clone)]
pub struct Reply {
    pub text: String,
    pub outcome: Outcome,
}

impl Reply {
    pub fn armed(text: &str) -> (r: Self)
        ensures
            r.text@ == text@,
            r.outcome == Outcome::Armed,
    {
        Reply { text: text.to_owned(), outcome: Outcome::Armed }
    }

    pub fn deferred(text: &str) -> (r: Self)
        ensures
            r.text@ == text@,
            r.outcome == Outcome::Deferred,
    {
        Reply { text: text.to_owned(), outcome: Outcome::Deferred }
    }

    /// The words alone.
    pub fn into_text(self) -> (r: String)
        ensures
            r == self.text,
    {
        self.text
    }

    /// The same answer with more words. What came of the call stays what it was.
    pub fn followed_by(self, more: &str) -> (r: Self)
        ensures
            r.text@ == self.text@ + more@,
            r.outcome == self.outcome,
    {
        Reply { text: self.text.concat(more), outcome: self.outcome }
    }
}

} // verus!

//! The error type used throughout the build pipeline.
//!
//! Every failure carries a chain of messages: the innermost message says what
//! went wrong, and each caller that passes the failure on may wrap it with a
//! message naming the operation that failed.  The first message of the chain
//! is the one a user sees first.

use vstd::prelude::*;

verus! {

/// A build error: a non-empty causal chain of messages, outermost first.
#[derive(Debug)]
pub struct BlogError {
    messages: Vec<String>,
}

impl BlogError {
    /// Well-formed errors carry at least one message.
    pub open spec fn wf(&self) -> bool {
        self.chain().len() >= 1
    }

    /// The chain of messages, outermost first.
    pub closed spec fn chain(&self) -> Seq<Seq<char>> {
        self.messages@.map(|i: int, m: String| m@)
    }

    /// The outermost message of the chain.
    pub open spec fn top(&self) -> Seq<char> {
        self.chain()[0]
    }

    /// A fresh error with a single message.
    pub fn new(message: String) -> (r: BlogError)
        ensures
            r.wf(),
            r.chain() == seq![message@],
    {
        let mut messages: Vec<String> = Vec::new();
        messages.push(message);
        let r = BlogError { messages };
        proof {
            assert(r.chain() =~= seq![message@]);
        }
        r
    }

    /// Wraps the error with one more message naming the failed operation.
    pub fn context(self, message: String) -> (r: BlogError)
        ensures
            r.wf(),
            r.chain() == seq![message@] + self.chain(),
    {
        let mut messages: Vec<String> = Vec::new();
        messages.push(message);
        let mut rest = self.messages;
        messages.append(&mut rest);
        let r = BlogError { messages };
        proof {
            assert(r.chain() =~= seq![message@] + self.chain());
        }
        r
    }

    /// The outermost message, the one reported to the user first.
    pub fn message(&self) -> (r: &String)
        requires
            self.wf(),
        ensures
            r@ == self.top(),
    {
        &self.messages[0]
    }

    /// The whole chain of messages, outermost first.
    pub fn messages(&self) -> (r: &Vec<String>)
        ensures
            r@.map(|i: int, m: String| m@) == self.chain(),
    {
        &self.messages
    }
}

} // verus!

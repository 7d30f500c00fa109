//! Errors as a chain of messages: what was being done, then why it failed.
use vstd::prelude::*;

use crate::text::{collapsed, copy_of, join_texts};

verus! {

/// Why an operation failed. The first message says what went wrong; each further one is the cause of
/// the one before.
#[derive(Debug)]
pub struct Failure {
    pub chain: Vec<String>,
}

impl View for Failure {
    type V = Seq<Seq<char>>;

    open spec fn view(&self) -> Seq<Seq<char>> {
        crate::text::texts(self.chain@)
    }
}

/// An outcome as plain values.
pub open spec fn seen<T: View>(r: Result<T, Failure>) -> Result<T::V, Seq<Seq<char>>> {
    match r {
        Ok(v) => Ok(v@),
        Err(e) => Err(e@),
    }
}

/// A chain of messages on one line.
pub open spec fn flat(chain: Seq<Seq<char>>) -> Seq<char> {
    crate::text::join(chain, ": "@)
}

impl Failure {
    /// A failure with one message.
    pub fn new(message: String) -> (r: Failure)
        ensures
            r@ == seq![message@],
    {
        let mut chain: Vec<String> = Vec::new();
        chain.push(message);
        assert(crate::text::texts(chain@) =~= seq![message@]);
        Failure { chain }
    }

    /// A failure with one fixed message.
    pub fn saying(message: &str) -> (r: Failure)
        ensures
            r@ == seq![message@],
    {
        Failure::new(copy_of(message))
    }

    /// A failure with a message and its cause.
    pub fn caused(message: String, cause: String) -> (r: Failure)
        ensures
            r@ == seq![message@, cause@],
    {
        let mut chain: Vec<String> = Vec::new();
        chain.push(message);
        chain.push(cause);
        assert(crate::text::texts(chain@) =~= seq![message@, cause@]);
        Failure { chain }
    }

    /// This failure as the cause of another.
    pub fn context(self, message: String) -> (r: Failure)
        ensures
            r@ == seq![message@] + self@,
    {
        let mut chain = self.chain;
        chain.insert(0, message);
        assert(crate::text::texts(chain@) =~= seq![message@] + self@);
        Failure { chain }
    }

    /// The first message: what went wrong, without its causes.
    pub fn message(&self) -> (r: String)
        ensures
            r@ == (if self@.len() == 0 {
                ""@
            } else {
                self@[0]
            }),
    {
        if self.chain.len() == 0 {
            copy_of("")
        } else {
            copy_of(self.chain[0].as_str())
        }
    }

    /// The whole chain on one line.
    pub fn one_line(&self) -> (r: String)
        ensures
            r@ == flat(self@),
    {
        join_texts(&self.chain, ": ")
    }
}

/// One-line rendering of a whole chain for tool responses: white space is collapsed because a cause
/// may run over several lines.
pub fn error_message(e: &Failure) -> (r: String)
    ensures
        r@ == crate::text::collapse(flat(e@)),
{
    let line = e.one_line();
    collapsed(line.as_str())
}

} // verus!

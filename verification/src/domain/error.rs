//! A chained error: a message wrapped around an optional cause, read
//! back as one colon-separated line, outermost message first.

use vstd::prelude::*;

verus! {

/// An error message with an optional cause it wraps.
pub struct Error {
    pub message: String,
    pub caused_by: Option<Box<Error>>,
}

/// The chain of messages, outermost first.
pub open spec fn chain_of(e: Error) -> Seq<Seq<char>>
    decreases e,
{
    match e.caused_by {
        Some(cause) => seq![e.message@] + chain_of(*cause),
        None => seq![e.message@],
    }
}

impl Error {
    /// A leaf error carrying one message.
    pub fn new(msg: &str) -> (r: Self)
        ensures
            chain_of(r) == seq![msg@],
    {
        Error { message: msg.to_owned(), caused_by: None }
    }

    /// Wraps this error in an outer message.
    pub fn wrap(self, msg: &str) -> (r: Self)
        ensures
            chain_of(r) == seq![msg@] + chain_of(self),
    {
        let ghost inner = chain_of(self);
        let r = Error { message: msg.to_owned(), caused_by: Some(Box::new(self)) };
        proof {
            assert(chain_of(r) =~= seq![msg@] + inner);
        }
        r
    }

    /// The chain rendered as one line: the messages outermost first,
    /// separated by a colon and a space.
    pub fn describe(&self) -> (r: String)
        ensures
            r@ == rendered(chain_of(*self)),
        decreases *self,
    {
        let ghost me = chain_of(*self);
        match &self.caused_by {
            Some(cause) => {
                let rest = cause.describe();
                let mut s = self.message.clone();
                s.append(": ");
                s.append(rest.as_str());
                proof {
                    assert(me.drop_first() =~= chain_of(**cause));
                    assert(me.len() > 1);
                    assert(me[0] == self.message@);
                    assert(s@ == me[0] + ": "@ + rendered(me.drop_first()));
                }
                s
            },
            None => {
                let s = self.message.clone();
                proof {
                    assert(me.len() == 1);
                    assert(me[0] == self.message@);
                }
                s
            },
        }
    }
}

/// A non-empty chain of messages joined with ": ".
pub open spec fn rendered(chain: Seq<Seq<char>>) -> Seq<char>
    decreases chain.len(),
{
    if chain.len() == 0 {
        Seq::<char>::empty()
    } else if chain.len() == 1 {
        chain[0]
    } else {
        chain[0] + ": "@ + rendered(chain.drop_first())
    }
}

} // verus!

//! The error taxonomy of the service, and error-chain rendering.

use vstd::prelude::*;
use vstd::string::StringExecFns;

verus! {

/// Everything that can go wrong while registering a subscriber.
///
/// Validation failures are client errors and never touch storage. Storage
/// failures happen before anything became durable. A delivery failure is
/// different in kind: it is reported only after the subscriber and token
/// were durably persisted, so the pending row survives it.
#[derive(Debug)]
pub enum SubscribeError {
    ValidationError(String),
    StorageError(String),
    EmailDeliveryError(String),
}

impl SubscribeError {
    /// The HTTP status code this error is reduced to for the caller:
    /// invalid input is the client's fault, everything else is a server
    /// error surfaced opaquely.
    pub fn status_code(&self) -> (code: u16)
        ensures
            code == 400 <==> self is ValidationError,
            code == 500 <==> !(self is ValidationError),
    {
        match self {
            SubscribeError::ValidationError(_) => 400,
            SubscribeError::StorageError(_) => 500,
            SubscribeError::EmailDeliveryError(_) => 500,
        }
    }
}

/// Everything that can make a whole newsletter publish fail. A failure of
/// a single recipient's delivery never does; only a failure that is not
/// recipient-specific, such as the confirmed-subscriber fetch itself going
/// wrong, aborts the operation.
#[derive(Debug)]
pub enum PublishError {
    UnexpectedError(String),
}

impl PublishError {
    /// The HTTP status code this error is reduced to for the caller.
    pub fn status_code(&self) -> (code: u16)
        ensures
            code == 500,
    {
        match self {
            PublishError::UnexpectedError(_) => 500,
        }
    }
}

/// The rendering of an error followed by its chain of causes.
pub open spec fn chain_fmt(top: Seq<char>, causes: Seq<Seq<char>>) -> Seq<char> {
    top + "\n\n"@ + causes_fmt(causes)
}

/// The rendering of a chain of causes, one annotated line per cause.
pub open spec fn causes_fmt(causes: Seq<Seq<char>>) -> Seq<char>
    decreases causes.len(),
{
    if causes.len() == 0 {
        Seq::<char>::empty()
    } else {
        causes_fmt(causes.drop_last()) + "Caused by:\n\t"@ + causes.last() + "\n"@
    }
}

/// Renders an error message and the messages of its chain of causes,
/// outermost first, in the classic "Caused by:" layout.
pub fn error_chain_fmt(error: &String, causes: &Vec<String>) -> (r: String)
    ensures
        r@ == chain_fmt(error@, causes@.map_values(|c: String| c@)),
{
    let ghost cs = causes@.map_values(|c: String| c@);
    let mut r = error.clone();
    r.append("\n\n");
    let n = causes.len();
    let mut i: usize = 0;
    while i < n
        invariant
            n == causes.len(),
            0 <= i <= n,
            cs == causes@.map_values(|c: String| c@),
            cs.len() == n,
            r@ == error@ + "\n\n"@ + causes_fmt(cs.take(i as int)),
        decreases n - i,
    {
        r.append("Caused by:\n\t");
        r.append(causes[i].as_str());
        r.append("\n");
        proof {
            assert(cs.take(i as int + 1).drop_last() =~= cs.take(i as int));
            assert(cs.take(i as int + 1).last() == cs[i as int]);
            assert(r@ =~= error@ + "\n\n"@ + causes_fmt(cs.take(i as int + 1)));
        }
        i = i + 1;
    }
    proof {
        assert(cs.take(n as int) =~= cs);
    }
    r
}

} // verus!

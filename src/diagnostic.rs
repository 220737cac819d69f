use vstd::prelude::*;

use crate::token::Span;

verus! {

/// An error to be reported in the host file: where it is anchored, if anywhere,
/// and its message.
#[derive(Debug)]
pub struct Diagnostic {
    /// The first and last span of the region to underline; `None` anchors the
    /// error at the whole invocation.
    pub spans: Option<(Span, Span)>,
    pub message: String,
}

/// The prefix that marks a message as coming from the embedded language.
pub open spec fn prefixed(message: Seq<char>) -> Seq<char> {
    "python: "@ + message
}

/// A diagnostic with the given anchor and message, the message marked as
/// coming from the embedded language.
pub fn diagnostic(spans: Option<(Span, Span)>, error: &str) -> (r: Diagnostic)
    ensures
        r.spans == spans,
        r.message@ == prefixed(error@),
{
    let mut message = String::from_str("python: ");
    message.append(error);
    Diagnostic { spans, message }
}

} // verus!

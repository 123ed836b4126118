//! Wraps a function body in the span bookkeeping that its shape asks for.
use vstd::prelude::*;
use crate::syntax::{Attribute, Block};

verus! {

/// An instrumented function body.
#[derive(Debug, PartialEq)]
pub enum Body {
    /// `let __guard = minitrace::local::LocalSpan::enter_with_local_parent(event); block`:
    /// the span is entered for the rest of the scope.
    Guard { event: String, block: Block },
    /// `minitrace::future::FutureExt::in_span(async move { block },
    /// minitrace::Span::enter_with_local_parent(event))`: one span for the
    /// whole life of the future.
    InSpan { event: String, block: Block },
    /// `minitrace::future::FutureExt::enter_on_poll(async move { block }, event)`:
    /// the span is entered again on every poll.
    EnterOnPoll { event: String, block: Block },
    /// `Box::pin(#[attrs] { body })`: the wrapper of the async-trait
    /// convention, around its instrumented future.
    Pinned { attrs: Vec<Attribute>, body: Box<Body> },
}

impl Clone for Body {
    fn clone(&self) -> Self {
        copy_body(self)
    }
}

fn copy_body(b: &Body) -> Body
    decreases b,
{
    match b {
        Body::Guard { event, block } => Body::Guard { event: event.clone(), block: block.clone() },
        Body::InSpan { event, block } => Body::InSpan { event: event.clone(), block: block.clone() },
        Body::EnterOnPoll { event, block } => Body::EnterOnPoll {
            event: event.clone(),
            block: block.clone(),
        },
        Body::Pinned { attrs, body } => Body::Pinned {
            attrs: attrs.clone(),
            body: Box::new(copy_body(body)),
        },
    }
}

/// Why a function could not be instrumented as asked.
#[derive(Clone, Copy, Debug, PartialEq, Eq, Structural)]
pub enum Diagnostic {
    /// `enter_on_poll` was asked of a function that is not asynchronous.
    EnterOnPollOnSync,
    /// The body has the legacy shape of the async-trait convention, whose
    /// rewrite is not supported.
    UnsupportedLegacyDesugaring,
}

impl Diagnostic {
    pub open spec fn spec_message(&self) -> Seq<char> {
        match self {
            Diagnostic::EnterOnPollOnSync => "`enter_on_poll` can not be applied on non-async function"@,
            Diagnostic::UnsupportedLegacyDesugaring => "Please upgrade the crate `async-trait` to a version higher than 0.1.44"@,
        }
    }

    /// The text of the compiler error.
    pub fn message(&self) -> (r: String)
        ensures
            r@ == self.spec_message(),
    {
        match self {
            Diagnostic::EnterOnPollOnSync => String::from_str(
                "`enter_on_poll` can not be applied on non-async function",
            ),
            Diagnostic::UnsupportedLegacyDesugaring => String::from_str(
                "Please upgrade the crate `async-trait` to a version higher than 0.1.44",
            ),
        }
    }
}

/// The body that wraps `block` in a span named `event`.
pub open spec fn span_body(block: Block, is_async: bool, enter_on_poll: bool, event: String) -> Body {
    if is_async {
        if enter_on_poll {
            Body::EnterOnPoll { event, block }
        } else {
            Body::InSpan { event, block }
        }
    } else {
        Body::Guard { event, block }
    }
}

/// The diagnostic that instrumenting a body of this shape gives.
pub open spec fn span_diagnostic(is_async: bool, enter_on_poll: bool) -> Option<Diagnostic> {
    if !is_async && enter_on_poll {
        Some(Diagnostic::EnterOnPollOnSync)
    } else {
        None
    }
}

/// Wraps the body in a span named after the item: an asynchronous body in a
/// future entered once or on every poll, as the item asks; a synchronous one
/// behind a scope guard. A synchronous body with `enter_on_poll` still gets
/// its guard, and the diagnostic beside it.
pub fn gen_block(block: Block, async_context: bool, name: &String, enter_on_poll: bool) -> (r: (
    Body,
    Option<Diagnostic>,
))
    ensures
        r.0 == span_body(block, async_context, enter_on_poll, *name),
        r.1 == span_diagnostic(async_context, enter_on_poll),
{
    let event = name.clone();
    if async_context {
        if enter_on_poll {
            (Body::EnterOnPoll { event, block }, None)
        } else {
            (Body::InSpan { event, block }, None)
        }
    } else {
        if enter_on_poll {
            return (Body::Guard { event, block }, Some(Diagnostic::EnterOnPollOnSync));
        }
        (Body::Guard { event, block }, None)
    }
}

} // verus!

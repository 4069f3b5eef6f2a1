//! Readiness conditions that an image description carries for whoever
//! launches the container.

use vstd::prelude::*;

verus! {

/// A rule by which a launched container counts as ready.
///
/// An image description stores these and hands them back unchanged; it never
/// looks inside one.
#[derive(Debug, PartialEq, Eq)]
pub enum WaitFor {
    /// The container is ready as soon as it has started.
    Nothing,
    /// Ready once `message` has appeared on standard output.
    StdOutMessage { message: String },
    /// Ready once `message` has appeared on standard error.
    StdErrMessage { message: String },
    /// Ready after `length` milliseconds.
    Millis { length: u64 },
    /// Ready once the container reports itself healthy.
    Healthcheck,
}

/// A readiness condition as plain mathematics: the same rules, with each
/// message as a sequence of characters.
pub enum WaitForView {
    Nothing,
    StdOutMessage { message: Seq<char> },
    StdErrMessage { message: Seq<char> },
    Millis { length: u64 },
    Healthcheck,
}

impl View for WaitFor {
    type V = WaitForView;

    open spec fn view(&self) -> WaitForView {
        match self {
            WaitFor::Nothing => WaitForView::Nothing,
            WaitFor::StdOutMessage { message } => WaitForView::StdOutMessage { message: message@ },
            WaitFor::StdErrMessage { message } => WaitForView::StdErrMessage { message: message@ },
            WaitFor::Millis { length } => WaitForView::Millis { length: *length },
            WaitFor::Healthcheck => WaitForView::Healthcheck,
        }
    }
}

impl DeepView for WaitFor {
    type V = WaitForView;

    open spec fn deep_view(&self) -> WaitForView {
        self@
    }
}

impl Clone for WaitFor {
    /// The same rule, with a message of its own where it has one.
    fn clone(&self) -> (copy: Self)
        ensures
            copy@ == self@,
    {
        match self {
            WaitFor::Nothing => WaitFor::Nothing,
            WaitFor::StdOutMessage { message } => WaitFor::StdOutMessage {
                message: message.clone(),
            },
            WaitFor::StdErrMessage { message } => WaitFor::StdErrMessage {
                message: message.clone(),
            },
            WaitFor::Millis { length } => WaitFor::Millis { length: *length },
            WaitFor::Healthcheck => WaitFor::Healthcheck,
        }
    }
}

} // verus!

//! Procedures that wait for replies.
//!
//! The procedures of this library take no action themselves. Each is a value that has one request
//! pending; handed the reply to it, it becomes the next such value or comes to its result.
use vstd::prelude::*;

use crate::models::{AppResult, Failure, outcome};

verus! {

/// Where a procedure stands after a reply: it goes on, or it has come to its result.
#[derive(Debug)]
pub enum Step<M, T> {
    Continue(M),
    Finish(AppResult<T>),
}

/// The model of a [`Step`].
#[verifier::ext_equal]
pub enum StepView<M, T> {
    Continue(M),
    Finish(Result<T, Failure>),
}

impl<M: View, T: View> View for Step<M, T> {
    type V = StepView<M::V, T::V>;

    open spec fn view(&self) -> StepView<M::V, T::V> {
        match self {
            Step::Continue(machine) => StepView::Continue(machine@),
            Step::Finish(result) => StepView::Finish(outcome(*result)),
        }
    }
}

} // verus!

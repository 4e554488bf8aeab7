use vstd::prelude::*;

verus! {

/// Why a run ended without an answer.
#[derive(Debug, Clone, Copy, PartialEq, Eq, Structural)]
pub enum ReactError {
    /// The model gave neither a Final Answer nor an Action.
    NoActionOrFinal,
    /// More than `max_steps` turns.
    MaxSteps,
}

/// The message of an error (what `Display` shows).
pub open spec fn react_error_message(e: ReactError) -> Seq<char> {
    match e {
        ReactError::NoActionOrFinal => "model output contained neither 'Final Answer:' nor a valid Action/Action Input pair"@,
        ReactError::MaxSteps => "exceeded max ReAct steps"@,
    }
}

impl ReactError {
    /// The human-readable message.
    pub fn message(self) -> (r: &'static str)
        ensures
            r@ == react_error_message(self),
    {
        match self {
            ReactError::NoActionOrFinal => "model output contained neither 'Final Answer:' nor a valid Action/Action Input pair",
            ReactError::MaxSteps => "exceeded max ReAct steps",
        }
    }
}

} // verus!

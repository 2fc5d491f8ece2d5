//! The arguments of the annotations that tie a function to a step of a
//! protocol: a state, the state that follows it, and the message between.

use vstd::prelude::*;

verus! {

/// A step of a protocol, as the `read` and `write` annotations name it.
#[derive(Debug, Clone, PartialEq, Eq)]
pub struct Transition {
    /// The path of the type of the state before the step.
    pub current_state: String,
    /// The path of the type of the state after the step.
    pub next_state: String,
    /// The path of the type of the message that the step reads or writes.
    pub message_type: String,
}

/// The annotation does not name exactly a state, the next state and a
/// message.
#[derive(Debug, Clone, Copy, PartialEq, Eq, Hash, Structural)]
pub struct InsufficientArguments;

/// The text of the error for an annotation with the wrong number of paths.
pub open spec fn insufficient_arguments_text() -> Seq<char> {
    "Insufficient number of arguments"@
}

impl InsufficientArguments {
    /// The text of the error.
    pub fn message(&self) -> (text: &'static str)
        ensures
            text@ == insufficient_arguments_text(),
    {
        "Insufficient number of arguments"
    }
}

impl Transition {
    /// Reads a step from the paths between the commas of an annotation:
    /// there must be three, the state, the next state and the message.
    pub fn parse(paths: Vec<String>) -> (result: Result<Transition, InsufficientArguments>)
        ensures
            result is Ok <==> paths@.len() == 3,
            result matches Ok(step) ==> step.current_state == paths@[0] && step.next_state
                == paths@[1] && step.message_type == paths@[2],
    {
        let mut paths = paths;
        if paths.len() != 3 {
            Err(InsufficientArguments)
        } else {
            let ghost all = paths@;
            let message_type = paths.pop().unwrap();
            let next_state = paths.pop().unwrap();
            let current_state = paths.pop().unwrap();
            Ok(Transition { current_state, next_state, message_type })
        }
    }
}

} // verus!

use vstd::prelude::*;

verus! {

/// Switches that restrict what an evaluation may do.
#[derive(Debug, Clone, Copy, PartialEq, Eq)]
pub struct InterpreterOptions {
    /// Every function call fails instead of running.
    pub disable_calls: bool,
    /// `let` and `function` declarations are neither checked nor bound, and the
    /// interpreter's state is left as it was.
    pub disable_decleration: bool,
}

/// The options of an ordinary evaluation.
pub open spec fn ordinary() -> InterpreterOptions {
    InterpreterOptions { disable_calls: false, disable_decleration: false }
}

/// The options of a side-effect-free preview.
pub open spec fn preview_options() -> InterpreterOptions {
    InterpreterOptions { disable_calls: true, disable_decleration: true }
}

impl InterpreterOptions {
    /// Options for an ordinary evaluation: calls and declarations allowed.
    pub fn new() -> (r: Self)
        ensures
            r == ordinary(),
    {
        Self { disable_calls: false, disable_decleration: false }
    }

    /// Options for a side-effect-free preview: calls and declarations disabled.
    pub fn all() -> (r: Self)
        ensures
            r == preview_options(),
    {
        Self { disable_calls: true, disable_decleration: true }
    }
}

} // verus!

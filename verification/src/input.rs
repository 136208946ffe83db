//! One participant's input for one simulation tick: an opaque,
//! equality-comparable snapshot value. Absence of input is represented
//! structurally (`Option::None` at the buffer level), distinct from the
//! neutral value used as the last-resort fallback.

use vstd::prelude::*;

verus! {

/// A captured input snapshot for one tick (for example a packed button/axis
/// state). The payload is a plain value so that buffers and messages can be
/// compared and merged deterministically.
#[derive(Clone, Copy, PartialEq, Eq, Structural, Debug)]
pub struct Input {
    pub value: i16,
}

impl Input {
    pub fn new(value: i16) -> (i: Input)
        ensures
            i.value == value,
    {
        Input { value }
    }

    /// The defined neutral input, supplied when a tick has no confirmed input
    /// and no earlier confirmed input exists inside the window.
    pub fn neutral() -> (i: Input)
        ensures
            i == Input::spec_neutral(),
    {
        Input { value: 0 }
    }

    /// The neutral input as a specification value.
    pub open spec fn spec_neutral() -> Input {
        Input { value: 0 }
    }
}

impl Default for Input {
    /// The default input is the neutral input.
    fn default() -> (i: Input)
        ensures
            i == Input::spec_neutral(),
    {
        Input { value: 0 }
    }
}

} // verus!

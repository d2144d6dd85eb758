//! What the engine shares with a user interface: the parameters that can be
//! adjusted while the simulation runs.

use vstd::prelude::*;

pub mod atomic_f32;
pub mod ising;

verus! {

/// A parameter that a simulation declares to the user interface. Numbers are
/// binary32 patterns.
#[derive(Debug, Clone, Copy, PartialEq, Eq)]
pub enum Parameter {
    /// A number within the bounds `min` and `max`, both included, on a linear
    /// or a logarithmic scale.
    Slider { tag: &'static str, value: u32, logarithmic: bool, min: u32, max: u32 },
    /// A switch.
    Toggle { tag: &'static str, enable: bool },
    /// A momentary action.
    Button { tag: &'static str },
}

/// A change that the user made to a declared parameter.
#[derive(Debug, Clone, Copy, PartialEq, Eq)]
pub enum UpadeParameter {
    Slider { tag: &'static str, value: u32 },
    Toggle { tag: &'static str, enable: bool },
    Button { tag: &'static str },
}

/// Whether two strings are the same.
pub fn same_text(left: &str, right: &str) -> (same: bool)
    ensures
        same == (left@ == right@),
{
    let length: usize = left.unicode_len();
    if length != right.unicode_len() {
        return false;
    }
    let mut i: usize = 0;
    while i < length
        invariant
            i <= length,
            length == left@.len(),
            length == right@.len(),
            forall|j: int| 0 <= j < i ==> left@[j] == right@[j],
        decreases length - i,
    {
        if left.get_char(i) != right.get_char(i) {
            return false;
        }
        i = i + 1;
    }
    proof {
        assert(left@ =~= right@);
    }
    true
}

} // verus!

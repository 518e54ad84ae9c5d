//! The bounded escape counter and the colour it maps to.
//!
//! The orbit itself is computed by the caller; this module owns the two
//! integer rules of the evaluator: the counter never passes the ceiling, and
//! a count becomes a colour by a fixed bit layout.

use vstd::prelude::*;
use crate::pixel::Color;

verus! {

/// Ceiling of the escape iteration.
pub const MAX_ITERATIONS: u32 = 511;

/// Number of completed steps of the escape iteration, at most
/// [`MAX_ITERATIONS`].
#[derive(Clone, Copy, Debug, PartialEq, Eq)]
pub struct IterationCount {
    steps: u32,
}

/// What the evaluator found for one point of the plane.
#[derive(Clone, Copy, Debug, PartialEq, Eq)]
pub enum Classification {
    /// Rejected by the analytic shortcut without iterating.
    Background,
    /// Iterated; the count is where the orbit escaped, or the ceiling.
    Iterated(IterationCount),
}

impl IterationCount {
    /// The count as a mathematical integer.
    pub closed spec fn spec_value(self) -> nat {
        self.steps as nat
    }

    /// The count lies in `[0, MAX_ITERATIONS]`.
    #[verifier::type_invariant]
    pub open spec fn wf(self) -> bool {
        self.spec_value() <= MAX_ITERATIONS
    }

    /// The count before the first step.
    pub fn zero() -> (n: IterationCount)
        ensures
            n.wf(),
            n.spec_value() == 0,
    {
        IterationCount { steps: 0 }
    }

    /// A count of `steps`; `None` exactly when `steps` is above the ceiling.
    pub fn new(steps: u32) -> (r: Option<IterationCount>)
        ensures
            r.is_some() <==> steps <= MAX_ITERATIONS,
            r matches Some(n) ==> n.wf() && n.spec_value() == steps,
    {
        if steps <= MAX_ITERATIONS {
            Some(IterationCount { steps })
        } else {
            None
        }
    }

    /// The count.
    pub fn value(&self) -> (v: u32)
        ensures
            v == self.spec_value(),
            v <= MAX_ITERATIONS,
    {
        proof {
            use_type_invariant(self);
        }
        self.steps
    }

    /// Whether the iteration has to stop because the ceiling is reached.
    pub fn at_ceiling(&self) -> (stop: bool)
        ensures
            stop == (self.spec_value() == MAX_ITERATIONS),
    {
        self.steps == MAX_ITERATIONS
    }

    /// The count after one more step; at the ceiling it stays there.
    pub fn advance(self) -> (next: IterationCount)
        ensures
            next.wf(),
            next.spec_value() == if self.spec_value() < MAX_ITERATIONS {
                self.spec_value() + 1
            } else {
                self.spec_value()
            },
    {
        proof {
            use_type_invariant(self);
        }
        if self.steps < MAX_ITERATIONS {
            IterationCount { steps: self.steps + 1 }
        } else {
            self
        }
    }
}

/// Colour of a point that was iterated `count` times: red is zero, green
/// holds the count without its two lowest bits, blue its eight lowest bits.
pub open spec fn spec_escape_color(count: nat) -> Color {
    Color { red: 0, green: ((count / 4) % 256) as u8, blue: (count % 256) as u8 }
}

/// Colour of a classified point.
pub open spec fn spec_shade(class: Classification) -> Color {
    match class {
        Classification::Background => Color::spec_white(),
        Classification::Iterated(count) => spec_escape_color(count.spec_value()),
    }
}

/// Maps an escape count to its colour.
pub fn escape_color(count: IterationCount) -> (c: Color)
    ensures
        c == spec_escape_color(count.spec_value()),
        c.red == 0,
        c.green <= 127,
{
    let n: u32 = count.value();
    let green: u32 = (n >> 2) & 0xFF;
    let blue: u32 = n & 0xFF;
    proof {
        assert(((n >> 2) & 0xFF) == (n / 4) % 256) by (bit_vector);
        assert((n & 0xFF) == n % 256) by (bit_vector);
    }
    Color { red: 0, green: green as u8, blue: blue as u8 }
}

/// Maps a classified point to its colour: white for the background, the
/// escape colour otherwise.
pub fn shade(class: Classification) -> (c: Color)
    ensures
        c == spec_shade(class),
{
    match class {
        Classification::Background => Color::white(),
        Classification::Iterated(count) => escape_color(count),
    }
}

} // verus!

//! Shared vocabulary for backend availability checks.

use vstd::prelude::*;

verus! {

/// How usable a backend is in the current session.
///
/// The middle state matters: a backend that *partly* works (evdev that can
/// open some devices but maybe not the keyboard) must not show up as a clean
/// tick.
#[derive(Debug, Clone, Copy, PartialEq, Eq, Structural)]
pub enum Availability {
    Available,
    /// Present but not fully verified, or working with caveats.
    Degraded,
    Unavailable,
}

impl Availability {
    /// Whether the daemon should be willing to select this backend.
    pub open spec fn usable(self) -> bool {
        self is Available || self is Degraded
    }

    /// The coloured mark for terminal output.
    pub open spec fn mark(self) -> Seq<char> {
        match self {
            Availability::Available => "\x1b[32m✓\x1b[0m"@,
            Availability::Degraded => "\x1b[33m!\x1b[0m"@,
            Availability::Unavailable => "\x1b[31m✗\x1b[0m"@,
        }
    }

    /// Whether the daemon should be willing to select this backend.
    pub fn is_usable(self) -> (r: bool)
        ensures
            r == self.usable(),
    {
        match self {
            Availability::Available => true,
            Availability::Degraded => true,
            Availability::Unavailable => false,
        }
    }

    /// Glyph for terminal output.
    pub fn glyph(self) -> (r: &'static str)
        ensures
            r@ == self.mark(),
    {
        match self {
            Availability::Available => "\x1b[32m✓\x1b[0m",
            Availability::Degraded => "\x1b[33m!\x1b[0m",
            Availability::Unavailable => "\x1b[31m✗\x1b[0m",
        }
    }
}

/// Only what works without a caveat gets the tick, only what does not work the
/// cross; a caveat never stands in the way of being selected.
pub proof fn law_marks_are_apart(a: Availability, b: Availability)
    ensures
        a.mark() == b.mark() ==> a == b,
        a.mark().contains('✓') <==> a is Available,
        a.mark().contains('✗') <==> a is Unavailable,
        !a.usable() <==> a is Unavailable,
{
    reveal_strlit("\x1b[32m✓\x1b[0m");
    reveal_strlit("\x1b[33m!\x1b[0m");
    reveal_strlit("\x1b[31m✗\x1b[0m");
    assert("\x1b[32m✓\x1b[0m"@[5] == '✓');
    assert("\x1b[33m!\x1b[0m"@[5] == '!');
    assert("\x1b[31m✗\x1b[0m"@[5] == '✗');
}

} // verus!

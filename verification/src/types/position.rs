//! Position direction.
use vstd::prelude::*;

verus! {

/// Current position direction.
#[derive(Clone, Copy, Debug, PartialEq, Eq, Structural)]
pub enum Position {
    /// Long position (betting on price increase).
    Long,
    /// Short position (betting on price decrease).
    Short,
    /// No active position.
    Flat,
}

impl Default for Position {
    fn default() -> (r: Position)
        ensures
            r == Position::Flat,
    {
        Position::Flat
    }
}

impl Position {
    /// There is a position.
    pub open spec fn active(self) -> bool {
        self != Position::Flat
    }

    /// The other side; no position is its own other side.
    pub open spec fn other(self) -> Position {
        match self {
            Position::Long => Position::Short,
            Position::Short => Position::Long,
            Position::Flat => Position::Flat,
        }
    }

    /// Returns true if there is an active position.
    pub fn is_active(&self) -> (r: bool)
        ensures
            r == self.active(),
    {
        !matches!(self, Position::Flat)
    }

    /// Returns the opposite position direction.
    pub fn opposite(&self) -> (r: Position)
        ensures
            r == self.other(),
            r.other() == *self,
            r.active() == self.active(),
    {
        match self {
            Position::Long => Position::Short,
            Position::Short => Position::Long,
            Position::Flat => Position::Flat,
        }
    }
}

/// Long and short are each other's other side, and no position is its own.
pub proof fn law_sides_turn_over(p: Position)
    ensures
        p.other().other() == p,
        p.active() ==> p.other() != p && p.other().active(),
        !p.active() ==> p.other() == p,
        p.active() == (p == Position::Long || p == Position::Short),
{
}

} // verus!

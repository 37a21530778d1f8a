//! Teams (factions).
use vstd::prelude::*;

verus! {

/// A team (faction). Pawns attack pawns of other teams.
#[derive(Clone, Copy, PartialEq, Eq, Debug, Structural)]
pub struct Team(pub u8);

impl Team {
    /// First human player (team number 1, drawn in red).
    pub fn human1() -> (t: Team)
        ensures
            t == Team(1),
    {
        Team(1)
    }

    /// Second human player (team number 2, drawn in blue).
    pub fn human2() -> (t: Team)
        ensures
            t == Team(2),
    {
        Team(2)
    }

    /// Pests (team number 100: the starfish of the star nests).
    pub fn pests() -> (t: Team)
        ensures
            t == Team(100),
    {
        Team(100)
    }

    /// Does this team attack `rhs`? Every other team is hostile.
    pub fn is_hostile_to(self, rhs: Team) -> (r: bool)
        ensures
            r == (self != rhs),
    {
        self.0 != rhs.0
    }

    /// The team's number, as shown to the player (`Team(n)`).
    pub fn number(self) -> (r: u8)
        ensures
            r == self.0,
    {
        self.0
    }
}

/// Hostility is symmetric and no team is hostile to itself.
pub proof fn lemma_hostility_symmetric(a: Team, b: Team)
    ensures
        (a != b) == (b != a),
        !(a != a),
{
}

} // verus!

//! The two sides of a game and the direction each one moves in.

use vstd::prelude::*;

verus! {

/// One of the two sides. White's pieces start on the rows nearest `y = 0`
/// and move toward increasing `y`; Red starts nearest `y = 7` and moves
/// toward decreasing `y`.
#[derive(Debug, PartialEq, Eq, Structural, Copy, Clone)]
pub enum Player {
    Red,
    White,
}

/// The opposing side.
pub open spec fn opponent(p: Player) -> Player {
    match p {
        Player::Red => Player::White,
        Player::White => Player::Red,
    }
}

/// The direction a side's pieces move in: the change in `y` of a simple step.
pub open spec fn forward(p: Player) -> int {
    match p {
        Player::Red => -1,
        Player::White => 1,
    }
}

impl Player {
    pub fn is_red(&self) -> (r: bool)
        ensures
            r == (*self == Player::Red),
    {
        match self {
            Self::Red => true,
            Self::White => false,
        }
    }

    pub fn is_white(&self) -> (r: bool)
        ensures
            r == (*self == Player::White),
    {
        match self {
            Self::Red => false,
            Self::White => true,
        }
    }

    /// The side's canonical display name.
    pub fn name(&self) -> (r: &'static str)
        ensures
            r@ == spec_name(*self),
    {
        proof {
            reveal_strlit("red");
            reveal_strlit("white");
        }
        match self {
            Self::Red => "red",
            Self::White => "white",
        }
    }
}

/// The characters of a side's display name.
pub open spec fn spec_name(p: Player) -> Seq<char> {
    match p {
        Player::Red => "red"@,
        Player::White => "white"@,
    }
}

} // verus!

//! The four compass directions on the grid and their rotations.

use vstd::prelude::*;

verus! {

#[derive(Clone, Copy, Debug, PartialEq, Eq, Structural, PartialOrd, Ord, Hash)]
pub enum Cardinal {
    North,
    South,
    West,
    East,
}

/// A quarter turn clockwise.
pub open spec fn cw(c: Cardinal) -> Cardinal {
    match c {
        Cardinal::North => Cardinal::East,
        Cardinal::South => Cardinal::West,
        Cardinal::West => Cardinal::North,
        Cardinal::East => Cardinal::South,
    }
}

/// A quarter turn counterclockwise.
pub open spec fn ccw(c: Cardinal) -> Cardinal {
    match c {
        Cardinal::North => Cardinal::West,
        Cardinal::South => Cardinal::East,
        Cardinal::West => Cardinal::South,
        Cardinal::East => Cardinal::North,
    }
}

/// The unit step of the direction on the grid, north being +y.
pub open spec fn offsets_of(c: Cardinal) -> (i32, i32) {
    match c {
        Cardinal::North => (0i32, 1i32),
        Cardinal::South => (0i32, -1i32),
        Cardinal::West => (-1i32, 0i32),
        Cardinal::East => (1i32, 0i32),
    }
}

/// `c` turned the way `o` is from north.
pub open spec fn turned_by(c: Cardinal, o: Cardinal) -> Cardinal {
    match o {
        Cardinal::North => c,
        Cardinal::South => cw(cw(c)),
        Cardinal::West => cw(c),
        Cardinal::East => ccw(c),
    }
}

impl Cardinal {
    /// The lower-case name of the direction.
    pub fn to_string(&self) -> (r: &'static str)
        ensures
            r@ == match *self {
                Cardinal::North => "north"@,
                Cardinal::South => "south"@,
                Cardinal::West => "west"@,
                Cardinal::East => "east"@,
            },
    {
        match self {
            Cardinal::North => "north",
            Cardinal::South => "south",
            Cardinal::West => "west",
            Cardinal::East => "east",
        }
    }

    pub fn turn_cw(&self) -> (r: Cardinal)
        ensures
            r == cw(*self),
    {
        match self {
            Cardinal::North => Cardinal::East,
            Cardinal::South => Cardinal::West,
            Cardinal::West => Cardinal::North,
            Cardinal::East => Cardinal::South,
        }
    }

    pub fn turn_ccw(&self) -> (r: Cardinal)
        ensures
            r == ccw(*self),
    {
        match self {
            Cardinal::North => Cardinal::West,
            Cardinal::South => Cardinal::East,
            Cardinal::West => Cardinal::South,
            Cardinal::East => Cardinal::North,
        }
    }

    pub fn offsets(&self) -> (r: (i32, i32))
        ensures
            r == offsets_of(*self),
    {
        match self {
            Cardinal::North => (0, 1),
            Cardinal::South => (0, -1),
            Cardinal::West => (-1, 0),
            Cardinal::East => (1, 0),
        }
    }

    pub fn turn_by(&self, o: &Cardinal) -> (r: Cardinal)
        ensures
            r == turned_by(*self, *o),
    {
        match o {
            Cardinal::North => *self,
            Cardinal::South => self.turn_cw().turn_cw(),
            Cardinal::West => self.turn_cw(),
            Cardinal::East => self.turn_ccw(),
        }
    }
}

/// Opposite quarter turns cancel, and four quarter turns are a full turn.
pub proof fn lemma_turns_compose(c: Cardinal)
    ensures
        ccw(cw(c)) == c,
        cw(ccw(c)) == c,
        cw(cw(cw(cw(c)))) == c,
{
}

} // verus!

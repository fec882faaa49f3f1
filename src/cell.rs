use vstd::prelude::*;

verus! {

/// A `Cell` is one single square in a `Universe`: it is either `Dead` or
/// `Alive`.
#[derive(Clone, Copy, Debug, PartialEq, Eq, Structural)]
pub enum Cell {
    Dead,
    Alive,
}

impl Cell {
    /// The other state: `Dead` for `Alive` and `Alive` for `Dead`.
    pub open spec fn toggled(self) -> Cell {
        match self {
            Cell::Dead => Cell::Alive,
            Cell::Alive => Cell::Dead,
        }
    }

    /// What the cell adds to a neighbour count: 1 when alive, else 0.
    pub open spec fn weight(self) -> int {
        match self {
            Cell::Dead => 0,
            Cell::Alive => 1,
        }
    }

    /// Flips the cell between `Dead` and `Alive`.
    pub fn toggle(&mut self)
        ensures
            *final(self) == old(self).toggled(),
    {
        *self = match *self {
            Cell::Dead => Cell::Alive,
            Cell::Alive => Cell::Dead,
        };
    }

    /// The cell as a small integer: `Dead` is 0 and `Alive` is 1.
    pub fn value(&self) -> (r: u8)
        ensures
            r as int == self.weight(),
    {
        match *self {
            Cell::Dead => 0,
            Cell::Alive => 1,
        }
    }
}

} // verus!

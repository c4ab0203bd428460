use vstd::prelude::*;

verus! {

/// A square given as (file, rank). Off-board values can be built; they are
/// rejected where a square is used.
#[derive(Clone, Copy, Debug, PartialEq, Eq, Structural, Hash)]
pub struct Coord(pub i8, pub i8);

impl Coord {
    /// Both axes lie on the 8x8 grid.
    pub open spec fn valid(self) -> bool {
        0 <= self.0 < 8 && 0 <= self.1 < 8
    }

    pub fn is_valid(&self) -> (r: bool)
        ensures
            r == self.valid(),
    {
        0 <= self.0 && self.0 < 8 && 0 <= self.1 && self.1 < 8
    }

    /// The square's name in algebraic notation, as two ASCII bytes: its file
    /// letter `a` to `h`, then its rank digit `1` to `8`.
    pub fn algebraic(&self) -> (r: [u8; 2])
        requires
            self.valid(),
        ensures
            r@ == seq![(97 + self.0) as u8, (49 + self.1) as u8],
    {
        let r = [97 + self.0 as u8, 49 + self.1 as u8];
        assert(r@ =~= seq![(97 + self.0) as u8, (49 + self.1) as u8]);
        r
    }
}

} // verus!

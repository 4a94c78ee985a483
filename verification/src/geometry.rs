use vstd::prelude::*;

use crate::Coordinate;

verus! {

/// Stepping a grid position left-to-right, bottom-to-top: x advances and
/// wraps at the row width, and y advances on each wrap.
pub trait GridIncrement: Sized {
    /// Whether a step from this position is meaningful and free of overflow.
    spec fn grid_inc_enabled(self, width: int) -> bool;

    /// The position one step further in the left-to-right, bottom-to-top
    /// order of a grid of the given width.
    spec fn grid_inc_spec(self, width: int) -> Self;

    fn grid_inc(&mut self, width: usize)
        requires
            old(self).grid_inc_enabled(width as int),
        ensures
            *final(self) == old(self).grid_inc_spec(width as int),
    ;

    fn grid_incd(self, width: usize) -> (r: Self)
        requires
            self.grid_inc_enabled(width as int),
        ensures
            r == self.grid_inc_spec(width as int),
    ;
}

impl GridIncrement for Coordinate {
    open spec fn grid_inc_enabled(self, width: int) -> bool {
        &&& 1 <= width
        &&& self.x < width
        &&& self.y < usize::MAX
    }

    open spec fn grid_inc_spec(self, width: int) -> Coordinate {
        if self.x + 1 == width {
            Coordinate { x: 0, y: (self.y + 1) as usize }
        } else {
            Coordinate { x: (self.x + 1) as usize, y: self.y }
        }
    }

    fn grid_inc(&mut self, width: usize) {
        self.x += 1;
        proof {
            if self.x == width {
                assert(self.x as int % width as int == 0);
            } else {
                assert(self.x < width);
                vstd::arithmetic::div_mod::lemma_small_mod(self.x as nat, width as nat);
                assert(self.x as int % width as int == self.x as int);
            }
        }
        self.x %= width;
        if self.x == 0 {
            self.y += 1;
        }
    }

    fn grid_incd(self, width: usize) -> (r: Coordinate) {
        let mut r = self;
        r.grid_inc(width);
        r
    }
}

} // verus!

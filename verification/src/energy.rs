//! Energy accumulated per basin.
//!
//! Energy is counted in squared knots. One unit of the published index is ten
//! thousand of them.

use vstd::prelude::*;
use crate::basin::Basin;

verus! {

/// The energy credited to each basin, in squared knots.
#[derive(Clone, Copy, Debug, PartialEq, Eq, Structural)]
pub struct PerBasinACE {
    /// West Pacific.
    pub wpac: i32,
    /// North Indian Ocean.
    pub nio: i32,
    /// Southern hemisphere.
    pub shem: i32,
    /// East Pacific.
    pub epac: i32,
    /// Atlantic.
    pub atl: i32,
}

impl PerBasinACE {
    /// The energy credited to one basin.
    pub open spec fn energy(self, basin: Basin) -> int {
        match basin {
            Basin::WPAC => self.wpac as int,
            Basin::NIO => self.nio as int,
            Basin::SHEM => self.shem as int,
            Basin::EPAC => self.epac as int,
            Basin::ATL => self.atl as int,
        }
    }

    /// The energy of all basins together.
    pub open spec fn total(self) -> int {
        self.wpac + self.nio + self.shem + self.epac + self.atl
    }

    /// No basin holds a negative amount, and the total is still an `i32`.
    pub open spec fn wf(self) -> bool {
        &&& self.wpac >= 0
        &&& self.nio >= 0
        &&& self.shem >= 0
        &&& self.epac >= 0
        &&& self.atl >= 0
        &&& self.total() <= i32::MAX
    }

    /// The account with `ace` more in `basin`.
    pub open spec fn credit(self, basin: Basin, ace: int) -> PerBasinACE {
        match basin {
            Basin::WPAC => PerBasinACE { wpac: (self.wpac + ace) as i32, ..self },
            Basin::NIO => PerBasinACE { nio: (self.nio + ace) as i32, ..self },
            Basin::SHEM => PerBasinACE { shem: (self.shem + ace) as i32, ..self },
            Basin::EPAC => PerBasinACE { epac: (self.epac + ace) as i32, ..self },
            Basin::ATL => PerBasinACE { atl: (self.atl + ace) as i32, ..self },
        }
    }

    /// How many basins hold a positive amount.
    pub open spec fn active_basins(self) -> int {
        (if self.wpac > 0 { 1int } else { 0int })
            + (if self.nio > 0 { 1int } else { 0int })
            + (if self.shem > 0 { 1int } else { 0int })
            + (if self.epac > 0 { 1int } else { 0int })
            + (if self.atl > 0 { 1int } else { 0int })
    }

    /// An account with nothing credited.
    pub fn new() -> (ace: PerBasinACE)
        ensures
            ace == (PerBasinACE { wpac: 0, nio: 0, shem: 0, epac: 0, atl: 0 }),
            ace.wf(),
            ace.total() == 0,
            forall|basin: Basin| ace.energy(basin) == 0,
    {
        PerBasinACE { wpac: 0, nio: 0, shem: 0, epac: 0, atl: 0 }
    }

    /// Tells whether the account is well formed.
    pub fn is_wf(&self) -> (valid: bool)
        ensures
            valid == self.wf(),
    {
        self.wpac >= 0 && self.nio >= 0 && self.shem >= 0 && self.epac >= 0 && self.atl >= 0
            && self.wpac as i64 + self.nio as i64 + self.shem as i64 + self.epac as i64
            + self.atl as i64 <= i32::MAX as i64
    }

    /// Tells whether the account holds any energy on balance.
    pub fn has_energy(&self) -> (positive: bool)
        ensures
            positive == (self.total() > 0),
    {
        self.wpac as i64 + self.nio as i64 + self.shem as i64 + self.epac as i64 + self.atl as i64
            > 0
    }

    /// The energy of all basins together.
    pub fn sum(&self) -> (total: i32)
        requires
            self.wf(),
        ensures
            total == self.total(),
    {
        self.wpac + self.nio + self.shem + self.epac + self.atl
    }

    /// The five amounts in the order West Pacific, North Indian, southern
    /// hemisphere, East Pacific, Atlantic.
    pub fn to_array(&self) -> (amounts: [i32; 5])
        ensures
            amounts@ == seq![self.wpac, self.nio, self.shem, self.epac, self.atl],
    {
        [self.wpac, self.nio, self.shem, self.epac, self.atl]
    }

    /// Credits `ace` to `basin` and leaves the other basins as they were.
    pub fn update_ace(&mut self, basin: &Basin, ace: i32)
        requires
            old(self).wf(),
            ace >= 0,
            old(self).total() + ace <= i32::MAX,
        ensures
            *final(self) == old(self).credit(*basin, ace as int),
            final(self).wf(),
            final(self).total() == old(self).total() + ace,
            forall|other: Basin|
                final(self).energy(other) == old(self).energy(other) + if other == *basin {
                    ace as int
                } else {
                    0int
                },
    {
        match basin {
            Basin::WPAC => {
                self.wpac = self.wpac + ace;
            },
            Basin::EPAC => {
                self.epac = self.epac + ace;
            },
            Basin::NIO => {
                self.nio = self.nio + ace;
            },
            Basin::SHEM => {
                self.shem = self.shem + ace;
            },
            Basin::ATL => {
                self.atl = self.atl + ace;
            },
        }
    }

    /// How many basins hold a positive amount.
    pub fn basin_count(&self) -> (count: i32)
        ensures
            count == self.active_basins(),
    {
        let mut count: i32 = 0;
        if self.wpac > 0 {
            count = count + 1;
        }
        if self.nio > 0 {
            count = count + 1;
        }
        if self.shem > 0 {
            count = count + 1;
        }
        if self.epac > 0 {
            count = count + 1;
        }
        if self.atl > 0 {
            count = count + 1;
        }
        count
    }
}

impl Default for PerBasinACE {
    fn default() -> (ace: PerBasinACE)
        ensures
            ace == (PerBasinACE { wpac: 0, nio: 0, shem: 0, epac: 0, atl: 0 }),
            ace.wf(),
            ace.total() == 0,
            forall|basin: Basin| ace.energy(basin) == 0,
    {
        PerBasinACE::new()
    }
}

} // verus!

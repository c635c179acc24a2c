//! The turrets of the stand and the number of positions each one has.

use vstd::prelude::*;

verus! {

/// A rotatable assembly of the stand. Each turret is addressed on the wire by
/// a numeric code and, where it is indexed, by a position counted from 1.
#[derive(Debug, Clone, Copy, PartialEq, Eq, Structural, PartialOrd, Ord, Hash)]
pub enum ScopeTurret {
    Unknown,
    Reflector,
    Objective,
    DensityFilter1,
    DensityFilter2,
    Condenser,
}

impl ScopeTurret {
    /// The number by which the controller knows this turret.
    pub open spec fn spec_code(self) -> u8 {
        match self {
            ScopeTurret::Unknown => 0,
            ScopeTurret::Reflector => 1,
            ScopeTurret::Objective => 2,
            ScopeTurret::DensityFilter1 => 3,
            ScopeTurret::DensityFilter2 => 4,
            ScopeTurret::Condenser => 5,
        }
    }

    /// The highest position of this turret; 0 for a turret that is not indexed.
    pub open spec fn spec_positions(self) -> u8 {
        match self {
            ScopeTurret::Objective => 6,
            ScopeTurret::DensityFilter1 => 4,
            ScopeTurret::DensityFilter2 => 4,
            _ => 0,
        }
    }

    /// The highest position of this turret; 0 for a turret that is not indexed.
    #[verifier::when_used_as_spec(spec_positions)]
    pub fn positions(self) -> (count: u8)
        ensures
            count == self.spec_positions(),
    {
        match self {
            ScopeTurret::Unknown => 0,
            ScopeTurret::Reflector => 0,
            ScopeTurret::Objective => 6,
            ScopeTurret::DensityFilter1 => 4,
            ScopeTurret::DensityFilter2 => 4,
            ScopeTurret::Condenser => 0,
        }
    }

    /// The number by which the controller knows this turret.
    #[verifier::when_used_as_spec(spec_code)]
    pub fn code(self) -> (code: u8)
        ensures
            code == self.spec_code(),
    {
        match self {
            ScopeTurret::Unknown => 0,
            ScopeTurret::Reflector => 1,
            ScopeTurret::Objective => 2,
            ScopeTurret::DensityFilter1 => 3,
            ScopeTurret::DensityFilter2 => 4,
            ScopeTurret::Condenser => 5,
        }
    }
}

} // verus!

//! The step from the conventions of a map file to those of the engine:
//! which axis is which, how long a unit is, how wide an index.

use vstd::prelude::*;

verus! {

/// How many map units make one metre.
pub const SHAMBLER_UNITS_PER_BEVY_METER: u32 = 32;

/// The unit in which the positions of a built map are given.
#[derive(Debug, PartialEq, Eq, Structural, Clone, Copy)]
pub enum MapUnits {
    /// Metres: positions are scaled down from map units.
    Bevy,
    /// Map units, as the editor shows them: positions are not scaled.
    Trenchbroom,
}

impl Default for MapUnits {
    /// Metres, unless the host asks otherwise.
    fn default() -> (units: MapUnits)
        ensures
            units == MapUnits::Bevy,
    {
        MapUnits::Bevy
    }
}

impl MapUnits {
    /// The number by which a length in map units is divided.
    pub open spec fn divisor_of(self) -> u32 {
        match self {
            MapUnits::Bevy => SHAMBLER_UNITS_PER_BEVY_METER,
            MapUnits::Trenchbroom => 1,
        }
    }

    /// Returns the number by which a length in map units is divided to
    /// give it in this unit.
    pub fn divisor(&self) -> (by: u32)
        ensures
            by == self.divisor_of(),
    {
        match self {
            MapUnits::Bevy => SHAMBLER_UNITS_PER_BEVY_METER,
            MapUnits::Trenchbroom => 1,
        }
    }
}

/// Turns the three coordinates of a map, where `z` points up, into those of
/// the engine, where `y` points up: the map's `y` comes first, then its
/// `z`, then its `x`.
pub fn to_bevy_axes<T>(x: T, y: T, z: T) -> (turned: (T, T, T))
    ensures
        turned == (y, z, x),
{
    (y, z, x)
}

/// The indices of `indices`, each cut to its low 32 bits.
pub open spec fn bevy_indices(indices: Seq<usize>) -> Seq<u32> {
    Seq::new(indices.len(), |i: int| indices[i] as u32)
}

/// Narrows the indices of a mesh to the 32 bits that the engine takes.
pub fn to_bevy_indecies(indecies: &Vec<usize>) -> (bevy_indecies: Vec<u32>)
    ensures
        bevy_indecies@ == bevy_indices(indecies@),
{
    let mut bevy_indecies: Vec<u32> = Vec::new();
    let mut i: usize = 0;
    while i < indecies.len()
        invariant
            i <= indecies.len(),
            bevy_indecies@ == bevy_indices(indecies@.take(i as int)),
        decreases indecies.len() - i,
    {
        bevy_indecies.push(indecies[i] as u32);
        proof {
            assert(bevy_indecies@ =~= bevy_indices(indecies@.take(i + 1)));
        }
        i += 1;
    }
    proof {
        assert(indecies@.take(indecies.len() as int) =~= indecies@);
    }
    bevy_indecies
}

/// An index that fits in 32 bits is not changed by narrowing.
pub proof fn lemma_bevy_indices_keep_small(indices: Seq<usize>, i: int)
    requires
        0 <= i < indices.len(),
        indices[i] <= u32::MAX,
    ensures
        bevy_indices(indices)[i] == indices[i],
{
}

} // verus!

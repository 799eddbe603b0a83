//! What can go wrong while a generator is configured.

use vstd::prelude::*;
use crate::world::tile::Content;

verus! {

#[derive(Clone, Copy, Debug, PartialEq, Eq, Structural)]
pub enum OxAgError {
    SizeNotSet,
    SeedNotSet,
    WorldOptionsNotSet,
    ContentOptionsNotSet,
    WeatherOptionsNotSet,
    InvalidWorldGenerationOption,
    InvalidContentGenerationOption(Content),
    ContentOptionNotSet(Content),
    CannotSetContentOptionForNone,
    /// No band starts at the lowest level.
    WrongLowerBound,
    /// No band ends at the highest level.
    WrongUpperBound,
    InvalidSpawnLevel(Content),
    /// A band reaches beyond the lowest or the highest level.
    RangesAreOutOfBounds,
    InvalidContentSpawnOption(Content),
    /// The options of this content kind in a list are not valid.
    InvalidContentOption(Content),
    /// The options handed over for one content kind are not valid.
    InvalidContentOptionProvided,
    /// A maze needs a side of at least five cells.
    MazeSizeTooSmall,
}

} // verus!

//! The chemical sources whose emission lines make up a star's spectrum.
use vstd::prelude::*;

verus! {

/// A chemical source of spectral lines.
#[derive(Debug, Clone, Copy, PartialEq, Eq, Hash)]
pub enum SpectralSource {
    Hydrogen,
    Helium,
    Sodium,
    Calcium,
    Oxygen,
    Mercury,
    Neon,
    WaterVapor,
}

} // verus!

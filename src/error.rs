use vstd::prelude::*;

verus! {

/// Why a settings record was rejected before any sampling work began.
#[derive(Clone, Copy, Debug, PartialEq, Eq, Structural)]
pub enum SettingsError {
    /// `width` is zero.
    ZeroWidth,
    /// `depth` is zero.
    ZeroDepth,
    /// `frequency` is zero; it must be positive.
    ZeroFrequency,
    /// `lacunarity` is not above one.
    LacunarityNotAboveOne,
    /// `persistence` is above one.
    PersistenceAboveOne,
}

/// Failure of a generation, composition or pipeline step.
#[derive(Clone, Copy, Debug, PartialEq, Eq, Structural)]
pub enum TerrainError {
    /// A settings record is out of range.
    InvalidSettings(SettingsError),
    /// Inputs that must agree in size do not.
    DimensionMismatch,
}

} // verus!

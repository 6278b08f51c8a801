use vstd::prelude::*;

verus! {

/// Everything that can end a conversion run.
#[derive(Debug, Clone, Copy, PartialEq, Eq, Structural)]
pub enum SaveError {
    /// The input is not exactly one save image long.
    LengthMismatch,
    /// A region byte or region name does not denote a known region.
    UnknownRegion,
    /// The image already holds data of the requested region.
    RegionUnchanged,
    /// The output path already holds a file.
    DestinationExists,
    /// A manual currency override does not hold exactly one value per slot.
    MalformedOverrideCount,
    /// Persisting the converted image failed.
    WriteError,
}

impl SaveError {
    /// A one-line diagnostic for the operator.
    pub fn message(&self) -> String {
        match self {
            SaveError::LengthMismatch => "Invalid save file supplied (wrong length).".to_string(),
            SaveError::UnknownRegion => "Invalid region in provided save file!".to_string(),
            SaveError::RegionUnchanged => "Save file already contains save data of the requested region!".to_string(),
            SaveError::DestinationExists => "The output file already exists.".to_string(),
            SaveError::MalformedOverrideCount => "Must supply exactly 3 values if using --set-pokos.".to_string(),
            SaveError::WriteError => "Couldn't write the converted save file.".to_string(),
        }
    }
}

} // verus!

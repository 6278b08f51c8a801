//! Region conversion of memory-card save images: slot discovery, currency
//! recalculation and checksum regeneration, each verified against a model of
//! the image as a sequence of bytes.

pub mod checksum;
pub mod currency;
pub mod error;
pub mod layout;
pub mod region;
pub mod save;
pub mod slots;

pub use error::SaveError;
pub use region::Region;

pub use save::SaveFile;
